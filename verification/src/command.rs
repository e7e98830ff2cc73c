//! The scripted command: what it asks of its host, step by step, and what it
//! does with the answers.
//!
//! The command itself touches neither the world nor the scripting layer. It
//! is a state machine: it hands its host one request at a time, the host
//! answers with an event, and the last request carries the outcome that the
//! host is to carry out.

use crate::candidate::Candidate;
use crate::engine::{
    best_candidate, lemma_ranked_skips_empty_tail, lemma_winner_kind_matches_class,
    link_is_terminal, ranked, sightings, terminal, visited, Node, WorldSnapshot,
};
use crate::entity::{Entity, PriorityClass};
use crate::object_type::ObjectType;
use crate::ranker::Ranker;
use vstd::prelude::*;

verus! {

/// The message of the error that a call without a numeric argument raises.
pub const ERR_USAGE: &'static str = "Usage: InteractNearest(autoloot)";

/// One thing that the host does for the command.
#[derive(Debug, Clone, Copy, PartialEq, Eq)]
pub enum Action {
    /// Raise a scripting error with the message `ERR_USAGE`.
    RaiseUsageError,
    /// Make the entity with this identifier the agent's target.
    SetTarget(u64),
    /// Interact with the unit behind this handle.
    InteractUnit { pointer: u32, autoloot: i32 },
    /// Interact with the game object behind this handle.
    InteractObject { pointer: u32, autoloot: i32 },
}

/// How a call of the command ends.
#[derive(Debug, Clone, Copy, PartialEq, Eq)]
pub enum Outcome {
    /// Nothing happened: the agent is not in the world, its handle did not
    /// resolve, or nothing eligible is in range.
    NoResult,
    /// The argument is missing or not a number: the host raises an error
    /// with the message `ERR_USAGE`.
    UsageError,
    /// The host targets the unit `guid`, then interacts with it.
    InteractUnit { guid: u64, pointer: u32, autoloot: i32 },
    /// The host interacts with the game object, without targeting it.
    InteractObject { pointer: u32, autoloot: i32 },
}

impl Outcome {
    /// Whether the outcome is an interaction.
    pub open spec fn interacts(self) -> bool {
        self is InteractUnit || self is InteractObject
    }

    /// What the host does to carry the outcome out, in order: a unit is
    /// targeted first and interacted with second, a game object is interacted
    /// with and not targeted.
    pub open spec fn plan(self) -> Seq<Action> {
        match self {
            Outcome::NoResult => seq![],
            Outcome::UsageError => seq![Action::RaiseUsageError],
            Outcome::InteractUnit { guid, pointer, autoloot } => seq![
                Action::SetTarget(guid),
                Action::InteractUnit { pointer, autoloot },
            ],
            Outcome::InteractObject { pointer, autoloot } => seq![
                Action::InteractObject { pointer, autoloot },
            ],
        }
    }

    /// What the host does to carry the outcome out, in order.
    pub fn actions(&self) -> (actions: Vec<Action>)
        ensures
            actions@ == self.plan(),
    {
        let mut actions: Vec<Action> = Vec::new();
        match *self {
            Outcome::NoResult => {},
            Outcome::UsageError => {
                actions.push(Action::RaiseUsageError);
            },
            Outcome::InteractUnit { guid, pointer, autoloot } => {
                actions.push(Action::SetTarget(guid));
                actions.push(Action::InteractUnit { pointer, autoloot });
            },
            Outcome::InteractObject { pointer, autoloot } => {
                actions.push(Action::InteractObject { pointer, autoloot });
            },
        }
        actions
    }

    /// What the command reports to the scripting layer: 1 after an
    /// interaction, 0 when nothing happened.
    pub fn result_count(&self) -> (count: i32)
        ensures
            count == (if self.interacts() {
                1i32
            } else {
                0i32
            }),
    {
        match self {
            Outcome::InteractUnit { .. } => 1,
            Outcome::InteractObject { .. } => 1,
            _ => 0,
        }
    }
}

/// What is done about the result of a selection pass: a unit is targeted and
/// interacted with, a game object is interacted with, and nothing is done
/// when there is no winner or the winner is of any other kind.
pub open spec fn interaction(
    selection: Option<(Candidate, PriorityClass)>,
    autoloot: i32,
) -> Outcome {
    match selection {
        Some((winner, _)) => {
            if winner.obj_type == ObjectType::Unit {
                Outcome::InteractUnit { guid: winner.guid, pointer: winner.pointer, autoloot }
            } else if winner.obj_type == ObjectType::GameObject {
                Outcome::InteractObject { pointer: winner.pointer, autoloot }
            } else {
                Outcome::NoResult
            }
        },
        None => Outcome::NoResult,
    }
}

/// Decides what is done about the result of a selection pass.
pub fn plan_interaction(selection: Option<(Candidate, PriorityClass)>, autoloot: i32) -> (outcome:
    Outcome)
    ensures
        outcome == interaction(selection, autoloot),
{
    match selection {
        Some((winner, _)) => match winner.obj_type {
            ObjectType::Unit => Outcome::InteractUnit {
                guid: winner.guid,
                pointer: winner.pointer,
                autoloot,
            },
            ObjectType::GameObject => Outcome::InteractObject { pointer: winner.pointer, autoloot },
            _ => Outcome::NoResult,
        },
        None => Outcome::NoResult,
    }
}

/// What the command asks of its host.
#[derive(Debug, Clone, Copy, PartialEq, Eq)]
pub enum Request {
    /// Is the agent in the world?
    IsInWorld,
    /// The command's first argument.
    Argument,
    /// The handle of the controlling agent.
    Player,
    /// The link at the head of the entity list.
    ListHead,
    /// The entity at this link, and the link that follows it.
    Visit(u32),
    /// The command is over: carry out the outcome.
    Finish(Outcome),
}

/// What the host answers.
#[derive(Debug, Clone, Copy, PartialEq, Eq)]
pub enum Event {
    /// Whether the agent is in the world.
    InWorld(bool),
    /// The first argument as an integer, if the scripting layer holds it to
    /// be a number.
    Argument(Option<i32>),
    /// The handle that the agent's own identifier resolved to, if it did.
    Player(Option<u32>),
    /// The link at the head of the entity list.
    ListHead(u32),
    /// The entity that the visited entry resolved to, if it did, and the
    /// link that follows the entry.
    Visited { entity: Option<Entity>, next: u32 },
}

/// Where a call of the command stands.
#[derive(Debug, Clone, Copy, PartialEq, Eq, Structural)]
pub enum Phase {
    AwaitInWorld,
    AwaitArgument,
    AwaitPlayer,
    AwaitListHead,
    Scanning,
    Finished,
}

/// One call of the command.
#[derive(Debug, Clone, Copy, PartialEq, Eq)]
pub struct Invocation {
    pub phase: Phase,
    pub autoloot: i32,
    pub ranker: Ranker,
}

impl Invocation {
    /// A call that has just begun: it waits to hear whether the agent is in
    /// the world.
    pub open spec fn begun() -> Invocation {
        Invocation { phase: Phase::AwaitInWorld, autoloot: 0, ranker: Ranker::fresh() }
    }

    /// The call once it has ended with `outcome`.
    pub open spec fn finished(self, outcome: Outcome) -> (Invocation, Request) {
        (Invocation { phase: Phase::Finished, ..self }, Request::Finish(outcome))
    }

    /// The call once the walk stands before `link`: a terminal link ends the
    /// walk and the command with it, any other link is visited.
    pub open spec fn arrived_at(self, link: u32) -> (Invocation, Request) {
        if terminal(link) {
            self.finished(interaction(self.ranker.winner(), self.autoloot))
        } else {
            (Invocation { phase: Phase::Scanning, ..self }, Request::Visit(link))
        }
    }

    /// The transition function: the call after `event`, and its next request.
    ///
    /// The agent's presence is asked first, the argument second, and the
    /// world is looked at only after both were in order. An event that does
    /// not answer the pending request ends the call with no result.
    pub open spec fn stepped(self, event: Event) -> (Invocation, Request) {
        match (self.phase, event) {
            (Phase::AwaitInWorld, Event::InWorld(in_world)) => {
                if in_world {
                    (Invocation { phase: Phase::AwaitArgument, ..self }, Request::Argument)
                } else {
                    self.finished(Outcome::NoResult)
                }
            },
            (Phase::AwaitArgument, Event::Argument(argument)) => {
                match argument {
                    Some(autoloot) => (
                        Invocation { phase: Phase::AwaitPlayer, autoloot, ..self },
                        Request::Player,
                    ),
                    None => self.finished(Outcome::UsageError),
                }
            },
            (Phase::AwaitPlayer, Event::Player(player)) => {
                if player.is_some() {
                    (
                        Invocation { phase: Phase::AwaitListHead, ranker: Ranker::fresh(), ..self },
                        Request::ListHead,
                    )
                } else {
                    self.finished(Outcome::NoResult)
                }
            },
            (Phase::AwaitListHead, Event::ListHead(head)) => self.arrived_at(head),
            (Phase::Scanning, Event::Visited { entity, next }) => {
                match entity {
                    Some(entity) => Invocation {
                        ranker: self.ranker.observed(entity),
                        ..self
                    }.arrived_at(next),
                    None => self.arrived_at(next),
                }
            },
            _ => self.finished(Outcome::NoResult),
        }
    }

    /// Begins a call of the command, and says what it asks first.
    pub fn begin() -> (start: (Invocation, Request))
        ensures
            start == (Invocation::begun(), Request::IsInWorld),
    {
        (
            Invocation { phase: Phase::AwaitInWorld, autoloot: 0, ranker: Ranker::new() },
            Request::IsInWorld,
        )
    }

    fn finish(&mut self, outcome: Outcome) -> (request: Request)
        ensures
            (*final(self), request) == old(self).finished(outcome),
    {
        self.phase = Phase::Finished;
        Request::Finish(outcome)
    }

    fn arrive_at(&mut self, link: u32) -> (request: Request)
        ensures
            (*final(self), request) == old(self).arrived_at(link),
    {
        if link_is_terminal(link) {
            let outcome = plan_interaction(self.ranker.best(), self.autoloot);
            self.finish(outcome)
        } else {
            self.phase = Phase::Scanning;
            Request::Visit(link)
        }
    }

    /// Takes the host's answer to the pending request, and says what the
    /// command asks next.
    pub fn step(&mut self, event: Event) -> (request: Request)
        ensures
            (*final(self), request) == old(self).stepped(event),
    {
        match (self.phase, event) {
            (Phase::AwaitInWorld, Event::InWorld(in_world)) => {
                if in_world {
                    self.phase = Phase::AwaitArgument;
                    Request::Argument
                } else {
                    self.finish(Outcome::NoResult)
                }
            },
            (Phase::AwaitArgument, Event::Argument(argument)) => {
                match argument {
                    Some(autoloot) => {
                        self.phase = Phase::AwaitPlayer;
                        self.autoloot = autoloot;
                        Request::Player
                    },
                    None => self.finish(Outcome::UsageError),
                }
            },
            (Phase::AwaitPlayer, Event::Player(player)) => {
                if player.is_some() {
                    self.phase = Phase::AwaitListHead;
                    self.ranker = Ranker::new();
                    Request::ListHead
                } else {
                    self.finish(Outcome::NoResult)
                }
            },
            (Phase::AwaitListHead, Event::ListHead(head)) => self.arrive_at(head),
            (Phase::Scanning, Event::Visited { entity, next }) => {
                match entity {
                    Some(entity) => {
                        self.ranker.observe(&entity);
                    },
                    None => {},
                }
                self.arrive_at(next)
            },
            _ => self.finish(Outcome::NoResult),
        }
    }
}

/// A call whose argument is missing or not a number ends at once with the
/// usage error: nothing of the world is asked for.
pub proof fn lemma_bad_argument_ends_the_call(invocation: Invocation)
    requires
        invocation.phase == Phase::AwaitArgument,
    ensures
        invocation.stepped(Event::Argument(None)) == invocation.finished(Outcome::UsageError),
{
}

/// A call asks for the agent's handle only after a numeric argument, and for
/// the list only after the agent's handle resolved.
pub proof fn lemma_world_is_asked_for_last(invocation: Invocation, event: Event)
    ensures
        invocation.stepped(event).1 == Request::Player ==> invocation.phase == Phase::AwaitArgument
            && event is Argument && event->Argument_0.is_some(),
        invocation.stepped(event).1 == Request::ListHead ==> invocation.phase == Phase::AwaitPlayer
            && event is Player && event->Player_0.is_some(),
        invocation.stepped(event).1 is Visit ==> invocation.phase == Phase::AwaitListHead
            || invocation.phase == Phase::Scanning,
{
}

/// A call that has ended stays ended, and asks for nothing more.
pub proof fn lemma_finished_call_stays_finished(invocation: Invocation, event: Event)
    requires
        invocation.phase == Phase::Finished,
    ensures
        invocation.stepped(event) == (invocation, Request::Finish(Outcome::NoResult)),
{
}

/// How a call of the command ends, given what its host would answer: no
/// result if the agent is not in the world; else the usage error if the
/// argument is not a number; else whatever is done about the result of the
/// selection pass.
pub open spec fn command_outcome(
    in_world: bool,
    argument: Option<i32>,
    player: Option<u32>,
    nodes: Seq<Node>,
) -> Outcome {
    if !in_world {
        Outcome::NoResult
    } else {
        match argument {
            Some(autoloot) => interaction(best_candidate(player, nodes), autoloot),
            None => Outcome::UsageError,
        }
    }
}

/// A call ends in an interaction exactly if the agent is in the world, the
/// argument is a number and the selection pass has a winner. A unit that
/// wins is targeted by its identifier and interacted with by its handle, a
/// game object that wins is interacted with by its handle, and the
/// argument's integer goes along unchanged.
pub proof fn lemma_winner_is_interacted_with(
    in_world: bool,
    argument: Option<i32>,
    player: Option<u32>,
    nodes: Seq<Node>,
)
    ensures
        command_outcome(in_world, argument, player, nodes).interacts() <==> in_world
            && argument.is_some() && best_candidate(player, nodes).is_some(),
        command_outcome(in_world, argument, player, nodes).interacts() ==> {
            let (winner, class) = best_candidate(player, nodes).unwrap();
            command_outcome(in_world, argument, player, nodes) == (if class
                == PriorityClass::GameObject {
                Outcome::InteractObject { pointer: winner.pointer, autoloot: argument.unwrap() }
            } else {
                Outcome::InteractUnit {
                    guid: winner.guid,
                    pointer: winner.pointer,
                    autoloot: argument.unwrap(),
                }
            })
        },
{
    if best_candidate(player, nodes).is_some() {
        lemma_winner_kind_matches_class(player, nodes);
    }
}

/// The link of entry `i` of a list, and the null link behind its end.
spec fn link_at(nodes: Seq<Node>, i: int) -> u32 {
    if 0 <= i < nodes.len() {
        nodes[i].link
    } else {
        0
    }
}

/// A call that is answered from a snapshot stands where it should after `i`
/// entries of the list were visited.
spec fn on_track(
    invocation: Invocation,
    request: Request,
    in_world: bool,
    argument: Option<i32>,
    player: Option<u32>,
    nodes: Seq<Node>,
    i: int,
) -> bool {
    match invocation.phase {
        Phase::AwaitInWorld => request == Request::IsInWorld && i == 0,
        Phase::AwaitArgument => request == Request::Argument && in_world && i == 0,
        Phase::AwaitPlayer => {
            &&& request == Request::Player
            &&& in_world
            &&& argument == Some(invocation.autoloot)
            &&& i == 0
        },
        Phase::AwaitListHead => {
            &&& request == Request::ListHead
            &&& in_world
            &&& argument == Some(invocation.autoloot)
            &&& player.is_some()
            &&& invocation.ranker == Ranker::fresh()
            &&& i == 0
        },
        Phase::Scanning => {
            &&& request == Request::Visit(link_at(nodes, i))
            &&& in_world
            &&& argument == Some(invocation.autoloot)
            &&& player.is_some()
            &&& visited(nodes, i)
            &&& invocation.ranker == ranked(sightings(nodes).take(i))
        },
        Phase::Finished => request == Request::Finish(
            command_outcome(in_world, argument, player, nodes),
        ),
    }
}

/// How many more phases a call can go through.
spec fn phases_left(phase: Phase) -> int {
    match phase {
        Phase::AwaitInWorld => 5,
        Phase::AwaitArgument => 4,
        Phase::AwaitPlayer => 3,
        Phase::AwaitListHead => 2,
        Phase::Scanning => 1,
        Phase::Finished => 0,
    }
}

/// When the walk stands before a terminal link after `i` entries, what was
/// ranked so far is the ranking of the whole pass.
proof fn lemma_walk_ends(nodes: Seq<Node>, i: int)
    requires
        0 <= i <= nodes.len(),
        terminal(link_at(nodes, i)),
    ensures
        ranked(sightings(nodes).take(i)) == ranked(sightings(nodes)),
{
    let seen = sightings(nodes);
    assert forall|j: int| i <= j < seen.len() implies (#[trigger] seen[j]).is_none() by {
        assert(terminal(nodes[i].link));
        assert(!visited(nodes, j));
    }
    lemma_ranked_skips_empty_tail(seen, i);
}

/// Runs the command to its end, with a snapshot of the world in place of
/// the host: the agent's presence, the argument, and the snapshot answer the
/// command's requests.
pub fn interact_nearest(in_world: bool, argument: Option<i32>, world: &WorldSnapshot) -> (outcome:
    Outcome)
    ensures
        outcome == command_outcome(in_world, argument, world.player, world.nodes@),
{
    let (mut invocation, mut request) = Invocation::begin();
    let mut i: usize = 0;
    loop
        invariant
            i < world.nodes.len() || (i == world.nodes.len() && invocation.phase
                != Phase::Scanning),
            on_track(invocation, request, in_world, argument, world.player, world.nodes@, i as int),
        decreases phases_left(invocation.phase), world.nodes.len() - i,
    {
        let ghost seen = sightings(world.nodes@);
        let event = match request {
            Request::IsInWorld => Event::InWorld(in_world),
            Request::Argument => Event::Argument(argument),
            Request::Player => Event::Player(world.player),
            Request::ListHead => {
                proof {
                    assert(i == 0);
                    assert(seen.take(0) =~= Seq::<Option<Entity>>::empty());
                    if terminal(link_at(world.nodes@, 0)) {
                        lemma_walk_ends(world.nodes@, 0);
                    }
                }
                if world.nodes.len() > 0 {
                    Event::ListHead(world.nodes[0].link)
                } else {
                    Event::ListHead(0)
                }
            },
            Request::Visit(_) => {
                let entity = world.nodes[i].entity;
                i += 1;
                proof {
                    assert(seen.take(i as int).drop_last() =~= seen.take(i - 1));
                    assert(seen.take(i as int).last() == entity);
                    if terminal(link_at(world.nodes@, i as int)) {
                        lemma_walk_ends(world.nodes@, i as int);
                    }
                }
                if i < world.nodes.len() {
                    Event::Visited { entity, next: world.nodes[i].link }
                } else {
                    Event::Visited { entity, next: 0 }
                }
            },
            Request::Finish(outcome) => {
                return outcome;
            },
        };
        request = invocation.step(event);
    }
}

} // verus!
