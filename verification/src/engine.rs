//! The selection engine: one pass over the entity list, from its head to the
//! first terminal link, and the choice of the winner.

use crate::blacklist::blacklisted_ids;
use crate::candidate::Candidate;
use crate::distance::within_range;
use crate::entity::{summoned_by_player, Entity, PriorityClass};
use crate::object_type::ObjectType;
use crate::ranker::Ranker;
use vstd::prelude::*;

verus! {

/// One entry of the entity list: its raw link, and the entity that the
/// entry's identifier resolved to, if it resolved.
#[derive(Debug, Clone, Copy, PartialEq, Eq)]
pub struct Node {
    pub link: u32,
    pub entity: Option<Entity>,
}

/// What one selection pass gets to see of the world: the handle of the
/// controlling agent, if it resolved, and the entries of the entity list in
/// list order, starting at the head.
#[derive(Debug)]
pub struct WorldSnapshot {
    pub player: Option<u32>,
    pub nodes: Vec<Node>,
}

/// A link ends the list when it is null or has its lowest bit set.
pub open spec fn terminal(link: u32) -> bool {
    link == 0 || link % 2 == 1
}

/// Whether a raw link ends the entity list.
pub fn link_is_terminal(link: u32) -> (ends: bool)
    ensures
        ends == terminal(link),
{
    assert((link & 1 != 0) == (link % 2 == 1)) by (bit_vector);
    link == 0 || (link & 1) != 0
}

/// The pass reaches entry `i`: no link up to and including its own is
/// terminal.
pub open spec fn visited(nodes: Seq<Node>, i: int) -> bool {
    &&& 0 <= i < nodes.len()
    &&& forall|j: int| 0 <= j <= i ==> !terminal((#[trigger] nodes[j]).link)
}

/// What the pass sees at entry `i`: the resolved entity of an entry that it
/// reaches, nothing otherwise.
pub open spec fn sighting(nodes: Seq<Node>, i: int) -> Option<Entity> {
    if visited(nodes, i) {
        nodes[i].entity
    } else {
        None
    }
}

/// What the pass sees, entry by entry.
pub open spec fn sightings(nodes: Seq<Node>) -> Seq<Option<Entity>> {
    Seq::new(nodes.len(), |i: int| sighting(nodes, i))
}

/// The ranker after the sightings were looked at in order.
pub open spec fn ranked(seen: Seq<Option<Entity>>) -> Ranker
    decreases seen.len(),
{
    if seen.len() == 0 {
        Ranker::fresh()
    } else {
        match seen.last() {
            Some(entity) => ranked(seen.drop_last()).observed(entity),
            None => ranked(seen.drop_last()),
        }
    }
}

/// The result of a pass: nothing if the agent's handle did not resolve, else
/// the winner among what the pass saw.
pub open spec fn best_candidate(player: Option<u32>, nodes: Seq<Node>) -> Option<
    (Candidate, PriorityClass),
> {
    if player.is_none() {
        None
    } else {
        ranked(sightings(nodes)).winner()
    }
}

/// Sightings that hold no entity change nothing: the ranker after all of
/// `seen` is the ranker after its first `n` entries when the rest is empty.
pub proof fn lemma_ranked_skips_empty_tail(seen: Seq<Option<Entity>>, n: int)
    requires
        0 <= n <= seen.len(),
        forall|j: int| n <= j < seen.len() ==> (#[trigger] seen[j]).is_none(),
    ensures
        ranked(seen) == ranked(seen.take(n)),
    decreases seen.len(),
{
    if n == seen.len() {
        assert(seen.take(n) =~= seen);
    } else {
        assert(seen.last() == seen[seen.len() - 1]);
        assert(seen.drop_last().take(n) =~= seen.take(n));
        lemma_ranked_skips_empty_tail(seen.drop_last(), n);
    }
}

/// Runs one selection pass over a snapshot of the world.
///
/// The pass is abandoned if the agent's own handle did not resolve. Else the
/// list is walked from its head up to the first terminal link; entries that
/// did not resolve are skipped; every other entity is put to the ranker; and
/// the valid candidate of the highest priority class wins.
pub fn find_best_candidate(world: &WorldSnapshot) -> (best: Option<(Candidate, PriorityClass)>)
    ensures
        best == best_candidate(world.player, world.nodes@),
{
    if world.player.is_none() {
        return None;
    }
    let ghost seen = sightings(world.nodes@);
    let mut ranker = Ranker::new();
    let mut i: usize = 0;
    while i < world.nodes.len() && !link_is_terminal(world.nodes[i].link)
        invariant
            i <= world.nodes.len(),
            seen == sightings(world.nodes@),
            forall|j: int| 0 <= j < i ==> !terminal((#[trigger] world.nodes@[j]).link),
            ranker == ranked(seen.take(i as int)),
        decreases world.nodes.len() - i,
    {
        proof {
            assert(visited(world.nodes@, i as int));
            assert(seen.take(i + 1).drop_last() =~= seen.take(i as int));
            assert(seen.take(i + 1).last() == world.nodes@[i as int].entity);
        }
        match world.nodes[i].entity {
            Some(entity) => {
                ranker.observe(&entity);
            },
            None => {},
        }
        i += 1;
    }
    proof {
        assert forall|j: int| i <= j < seen.len() implies (#[trigger] seen[j]).is_none() by {
            assert(terminal(world.nodes@[i as int].link));
            assert(!visited(world.nodes@, j));
        }
        lemma_ranked_skips_empty_tail(seen, i as int);
    }
    ranker.best()
}

/// Entry `i` of what was seen holds an entity that competes in `class`.
pub open spec fn competes(seen: Seq<Option<Entity>>, class: PriorityClass, i: int) -> bool {
    &&& 0 <= i < seen.len()
    &&& seen[i] matches Some(entity) && entity.class() == Some(class)
}

/// Entry `k` holds the competitor of `class` that a pass keeps: none of the
/// class is closer, and none before it is as close.
pub open spec fn is_nearest_of_class(
    seen: Seq<Option<Entity>>,
    class: PriorityClass,
    k: int,
) -> bool {
    &&& competes(seen, class, k)
    &&& forall|j: int| #[trigger]
        competes(seen, class, j) ==> seen[k].unwrap().distance <= seen[j].unwrap().distance
    &&& forall|j: int|
        j < k && #[trigger] competes(seen, class, j) ==> seen[k].unwrap().distance
            < seen[j].unwrap().distance
}

/// An entity competes only if it passes the eligibility filter, is a unit or
/// a game object, and is within range.
pub proof fn lemma_competitor_is_eligible_and_near(entity: Entity)
    requires
        entity.class().is_some(),
    ensures
        !summoned_by_player(entity.summoned_by, entity.summoner),
        !(entity.obj_type == ObjectType::GameObject && blacklisted_ids().contains(
            entity.gameobject_id,
        )),
        within_range(entity.distance),
        entity.obj_type == ObjectType::Unit || entity.obj_type == ObjectType::GameObject,
        entity.candidate().valid(),
{
}

/// An entity beyond the interaction range updates no candidate, whatever its
/// kind.
pub proof fn lemma_out_of_range_never_updates(ranker: Ranker, entity: Entity)
    requires
        !within_range(entity.distance),
    ensures
        ranker.observed(entity) == ranker,
{
}

/// An entity whose summoner resolves to a player updates no candidate.
pub proof fn lemma_player_summoned_never_updates(ranker: Ranker, entity: Entity)
    requires
        summoned_by_player(entity.summoned_by, entity.summoner),
    ensures
        ranker.observed(entity) == ranker,
{
}

/// A game object whose id is in the exclusion set updates no candidate.
pub proof fn lemma_blacklisted_never_updates(ranker: Ranker, entity: Entity)
    requires
        entity.obj_type == ObjectType::GameObject,
        blacklisted_ids().contains(entity.gameobject_id),
    ensures
        ranker.observed(entity) == ranker,
{
}

/// After a pass each class's candidate is empty if nothing competed in the
/// class, and else holds the competitor of minimum distance, the first seen
/// among equals.
pub proof fn lemma_ranked_holds_nearest(seen: Seq<Option<Entity>>, class: PriorityClass)
    ensures
        (forall|i: int| !#[trigger] competes(seen, class, i)) ==> ranked(seen).get(class)
            == Candidate::fresh(),
        (exists|i: int| #[trigger] competes(seen, class, i)) ==> exists|k: int| #[trigger]
            is_nearest_of_class(seen, class, k) && ranked(seen).get(class)
                == seen[k].unwrap().candidate(),
    decreases seen.len(),
{
    if seen.len() > 0 {
        let init = seen.drop_last();
        let end = seen.len() - 1;
        let before = ranked(init);
        lemma_ranked_holds_nearest(init, class);
        assert forall|i: int| #[trigger] competes(init, class, i) implies competes(seen, class, i)
            && init[i] == seen[i] by {
            assert(init[i] == seen[i]);
        }
        assert forall|i: int| i != end && #[trigger] competes(seen, class, i) implies competes(
            init,
            class,
            i,
        ) && init[i] == seen[i] by {
            assert(init[i] == seen[i]);
        }
        if competes(seen, class, end) {
            let entity = seen[end].unwrap();
            assert(ranked(seen).get(class) == before.get(class).updated(entity.candidate()));
            if exists|i: int| #[trigger] competes(init, class, i) {
                let k = choose|k: int| #[trigger]
                    is_nearest_of_class(init, class, k) && before.get(class)
                        == init[k].unwrap().candidate();
                assert(competes(seen, class, k));
                if entity.distance < init[k].unwrap().distance {
                    assert(is_nearest_of_class(seen, class, end));
                } else {
                    assert(is_nearest_of_class(seen, class, k));
                }
            } else {
                assert(is_nearest_of_class(seen, class, end));
            }
        } else {
            assert(ranked(seen).get(class) == before.get(class));
            if exists|i: int| #[trigger] competes(init, class, i) {
                let k = choose|k: int| #[trigger]
                    is_nearest_of_class(init, class, k) && before.get(class)
                        == init[k].unwrap().candidate();
                assert(competes(seen, class, k));
                assert(is_nearest_of_class(seen, class, k));
            }
        }
    }
}

/// After a pass a class's candidate is valid exactly if something competed
/// in the class.
pub proof fn lemma_valid_iff_competed(seen: Seq<Option<Entity>>, class: PriorityClass)
    ensures
        ranked(seen).get(class).valid() <==> exists|i: int| #[trigger] competes(seen, class, i),
{
    lemma_ranked_holds_nearest(seen, class);
    if exists|i: int| #[trigger] competes(seen, class, i) {
        let k = choose|k: int| #[trigger]
            is_nearest_of_class(seen, class, k) && ranked(seen).get(class)
                == seen[k].unwrap().candidate();
        lemma_competitor_is_eligible_and_near(seen[k].unwrap());
    }
}

/// Priority dominates distance: when the pass sees a competitor of some
/// class, the winner is of that class or of a higher one, whatever the
/// distances are.
pub proof fn lemma_priority_dominates_distance(
    player: Option<u32>,
    nodes: Seq<Node>,
    class: PriorityClass,
    i: int,
)
    requires
        player.is_some(),
        competes(sightings(nodes), class, i),
    ensures
        best_candidate(player, nodes) matches Some((_, won)) && won.rank() <= class.rank(),
{
    lemma_valid_iff_competed(sightings(nodes), class);
}

/// The winner of a pass is an entity that the pass reached and that competed:
/// it is the closest of its class, the first seen among equals, and nothing
/// competed in a higher class. So it is within range, no player summoned it,
/// and it is no blacklisted game object. The returned index is the winner's
/// place in the list.
pub proof fn lemma_winner_was_sighted(player: Option<u32>, nodes: Seq<Node>) -> (k: int)
    requires
        best_candidate(player, nodes).is_some(),
    ensures
        player.is_some(),
        visited(nodes, k),
        nodes[k].entity.is_some(),
        best_candidate(player, nodes).unwrap().0 == nodes[k].entity.unwrap().candidate(),
        nodes[k].entity.unwrap().class() == Some(best_candidate(player, nodes).unwrap().1),
        is_nearest_of_class(sightings(nodes), best_candidate(player, nodes).unwrap().1, k),
        forall|higher: PriorityClass, i: int|
            higher.rank() < best_candidate(player, nodes).unwrap().1.rank()
                ==> !#[trigger] competes(sightings(nodes), higher, i),
        within_range(nodes[k].entity.unwrap().distance),
        !summoned_by_player(
            nodes[k].entity.unwrap().summoned_by,
            nodes[k].entity.unwrap().summoner,
        ),
        !(nodes[k].entity.unwrap().obj_type == ObjectType::GameObject && blacklisted_ids().contains(
            nodes[k].entity.unwrap().gameobject_id,
        )),
{
    let seen = sightings(nodes);
    let class = best_candidate(player, nodes).unwrap().1;
    lemma_valid_iff_competed(seen, PriorityClass::Lootable);
    lemma_valid_iff_competed(seen, PriorityClass::GameObject);
    lemma_valid_iff_competed(seen, PriorityClass::Skinnable);
    lemma_valid_iff_competed(seen, PriorityClass::AliveUnit);
    lemma_ranked_holds_nearest(seen, class);
    let k = choose|k: int| #[trigger]
        is_nearest_of_class(seen, class, k) && ranked(seen).get(class)
            == seen[k].unwrap().candidate();
    assert(seen[k] == sighting(nodes, k));
    lemma_competitor_is_eligible_and_near(nodes[k].entity.unwrap());
    k
}

/// The converse: when the agent's handle resolved, the closest competitor of
/// a class, the first seen among equals, wins if nothing competed in a
/// higher class.
pub proof fn lemma_nearest_of_highest_class_wins(
    player: Option<u32>,
    nodes: Seq<Node>,
    class: PriorityClass,
    k: int,
)
    requires
        player.is_some(),
        is_nearest_of_class(sightings(nodes), class, k),
        forall|higher: PriorityClass, i: int|
            higher.rank() < class.rank() ==> !#[trigger] competes(sightings(nodes), higher, i),
    ensures
        best_candidate(player, nodes) == Some((sightings(nodes)[k].unwrap().candidate(), class)),
{
    let seen = sightings(nodes);
    lemma_valid_iff_competed(seen, PriorityClass::Lootable);
    lemma_valid_iff_competed(seen, PriorityClass::GameObject);
    lemma_valid_iff_competed(seen, PriorityClass::Skinnable);
    lemma_valid_iff_competed(seen, PriorityClass::AliveUnit);
    lemma_ranked_holds_nearest(seen, class);
    assert(competes(seen, class, k));
    let kept = choose|kept: int| #[trigger]
        is_nearest_of_class(seen, class, kept) && ranked(seen).get(class)
            == seen[kept].unwrap().candidate();
    assert(competes(seen, class, kept));
    assert(kept == k);
}

/// The winner's kind goes with its class: the winner of the game-object
/// class is a game object, the winner of any other class is a unit.
pub proof fn lemma_winner_kind_matches_class(player: Option<u32>, nodes: Seq<Node>)
    requires
        best_candidate(player, nodes).is_some(),
    ensures
        best_candidate(player, nodes).unwrap().0.obj_type == (if best_candidate(
            player,
            nodes,
        ).unwrap().1 == PriorityClass::GameObject {
            ObjectType::GameObject
        } else {
            ObjectType::Unit
        }),
{
    let k = lemma_winner_was_sighted(player, nodes);
}

/// A pass ends with nothing to do exactly if the agent's handle did not
/// resolve or nothing that the pass saw competed in any class.
pub proof fn lemma_nothing_to_do(player: Option<u32>, nodes: Seq<Node>)
    ensures
        best_candidate(player, nodes).is_none() <==> player.is_none() || forall|
            class: PriorityClass,
            i: int,
        |
            !#[trigger] competes(sightings(nodes), class, i),
{
    let seen = sightings(nodes);
    lemma_valid_iff_competed(seen, PriorityClass::Lootable);
    lemma_valid_iff_competed(seen, PriorityClass::GameObject);
    lemma_valid_iff_competed(seen, PriorityClass::Skinnable);
    lemma_valid_iff_competed(seen, PriorityClass::AliveUnit);
}

/// A world in which nothing that resolves is within range yields nothing to
/// do.
pub proof fn lemma_nothing_in_range_is_nothing_to_do(player: Option<u32>, nodes: Seq<Node>)
    requires
        forall|i: int|
            0 <= i < nodes.len() ==> ((#[trigger] nodes[i]).entity matches Some(entity)
                ==> !within_range(entity.distance)),
    ensures
        best_candidate(player, nodes).is_none(),
{
    assert forall|class: PriorityClass, i: int| !#[trigger] competes(
        sightings(nodes),
        class,
        i,
    ) by {
        if competes(sightings(nodes), class, i) {
            assert(sightings(nodes)[i] == nodes[i].entity);
        }
    }
    lemma_nothing_to_do(player, nodes);
}

/// The ranker does not depend on sightings that do not compete.
proof fn lemma_ranked_ignores_non_competitor(seen: Seq<Option<Entity>>, i: int)
    requires
        0 <= i < seen.len(),
        seen[i] matches Some(entity) ==> entity.class().is_none(),
    ensures
        ranked(seen.update(i, None)) == ranked(seen),
    decreases seen.len(),
{
    let end = seen.len() - 1;
    if i == end {
        assert(seen.update(i, None).drop_last() =~= seen.drop_last());
    } else {
        assert(seen.update(i, None).drop_last() =~= seen.drop_last().update(i, None));
        lemma_ranked_ignores_non_competitor(seen.drop_last(), i);
    }
}

/// An entity that does not compete (one that a player summoned, a
/// blacklisted game object, one out of range, one of another kind) has no
/// influence on the result: the pass ends as if the entry had not resolved.
pub proof fn lemma_non_competitor_is_invisible(player: Option<u32>, nodes: Seq<Node>, i: int)
    requires
        0 <= i < nodes.len(),
        nodes[i].entity matches Some(entity) ==> entity.class().is_none(),
    ensures
        best_candidate(player, nodes) == best_candidate(
            player,
            nodes.update(i, Node { link: nodes[i].link, entity: None }),
        ),
{
    let without = nodes.update(i, Node { link: nodes[i].link, entity: None });
    assert forall|j: int| visited(nodes, j) == visited(without, j) by {
        if visited(nodes, j) {
            assert forall|m: int| 0 <= m <= j implies !terminal((#[trigger] without[m]).link) by {
                assert(!terminal(nodes[m].link));
            }
        }
        if visited(without, j) {
            assert forall|m: int| 0 <= m <= j implies !terminal((#[trigger] nodes[m]).link) by {
                assert(!terminal(without[m].link));
            }
        }
    }
    assert(sightings(without) =~= sightings(nodes).update(i, None));
    lemma_ranked_ignores_non_competitor(sightings(nodes), i);
}

} // verus!
