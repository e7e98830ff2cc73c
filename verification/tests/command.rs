use interact::{
    interact_nearest, plan_interaction, Action, Candidate, Entity, Event, Invocation, LuaError, Node,
    ObjectType, Outcome, Phase, PriorityClass, Request, WorldSnapshot, ERR_USAGE,
};

fn bits(distance: f32) -> u32 {
    distance.to_bits()
}

fn world(entities: &[Entity]) -> WorldSnapshot {
    let nodes = entities
        .iter()
        .enumerate()
        .map(|(i, entity)| Node { link: 0x1000 + 0x40 * i as u32, entity: Some(*entity) })
        .collect();
    WorldSnapshot { player: Some(0x0800), nodes }
}

/// Runs a call against scripted answers and records what it asked for.
fn run(events: &[Event]) -> (Vec<Request>, Invocation) {
    let (mut invocation, first) = Invocation::begin();
    let mut asked = vec![first];
    for event in events {
        asked.push(invocation.step(*event));
    }
    (asked, invocation)
}

#[test]
fn test_error_message_is_valid_cstr() {
    // The message must be fit to be handed over as a C string.
    assert!(!ERR_USAGE.as_bytes().is_empty());
    assert!(std::str::from_utf8(ERR_USAGE.as_bytes()).is_ok());
    assert!(!ERR_USAGE.as_bytes().contains(&0));
}

#[test]
fn test_usage_message_text() {
    assert_eq!(ERR_USAGE, "Usage: InteractNearest(autoloot)");
}

#[test]
fn test_nothing_in_range_reports_no_result() {
    let far = [
        Entity::unit(1, 16, bits(5.5), 100, false, false),
        Entity::unit(2, 32, bits(80.0), 0, true, true),
        Entity::game_object(3, 48, bits(6.0), 1731),
    ];
    let outcome = interact_nearest(true, Some(1), &world(&far));
    assert_eq!(outcome, Outcome::NoResult);
    assert_eq!(outcome.result_count(), 0);
    assert_eq!(interact_nearest(true, Some(0), &world(&[])), Outcome::NoResult);
}

#[test]
fn test_non_numeric_argument_raises_usage_error() {
    let near = [Entity::unit(1, 16, bits(1.0), 100, false, false)];
    assert_eq!(interact_nearest(true, None, &world(&near)), Outcome::UsageError);
    assert_eq!(interact_nearest(true, None, &world(&[])), Outcome::UsageError);
}

#[test]
fn test_non_numeric_argument_ends_the_call_before_any_traversal() {
    let (asked, invocation) = run(&[Event::InWorld(true), Event::Argument(None)]);
    assert_eq!(
        asked,
        vec![Request::IsInWorld, Request::Argument, Request::Finish(Outcome::UsageError)]
    );
    assert_eq!(invocation.phase, Phase::Finished);
}

#[test]
fn test_agent_outside_the_world_is_checked_before_the_argument() {
    let near = [Entity::unit(1, 16, bits(1.0), 100, false, false)];
    assert_eq!(interact_nearest(false, None, &world(&near)), Outcome::NoResult);
    assert_eq!(interact_nearest(false, Some(1), &world(&near)), Outcome::NoResult);
    let (asked, _) = run(&[Event::InWorld(false)]);
    assert_eq!(asked, vec![Request::IsInWorld, Request::Finish(Outcome::NoResult)]);
}

#[test]
fn test_unit_is_targeted_then_interacted_with() {
    let near = [Entity::unit(0xAB, 0x40, bits(1.0), 100, false, false)];
    let outcome = interact_nearest(true, Some(1), &world(&near));
    assert_eq!(outcome, Outcome::InteractUnit { guid: 0xAB, pointer: 0x40, autoloot: 1 });
    assert_eq!(outcome.result_count(), 1);
    let remains = [Entity::unit(0xCD, 0x80, bits(2.0), 0, false, true)];
    assert_eq!(
        interact_nearest(true, Some(0), &world(&remains)),
        Outcome::InteractUnit { guid: 0xCD, pointer: 0x80, autoloot: 0 }
    );
}

#[test]
fn test_game_object_is_interacted_with_directly() {
    let near = [Entity::game_object(0xEF, 0xC0, bits(1.0), 1731)];
    let outcome = interact_nearest(true, Some(-7), &world(&near));
    assert_eq!(outcome, Outcome::InteractObject { pointer: 0xC0, autoloot: -7 });
    assert_eq!(outcome.result_count(), 1);
}

#[test]
fn test_actions_of_each_outcome_in_order() {
    assert_eq!(Outcome::NoResult.actions(), vec![]);
    assert_eq!(Outcome::UsageError.actions(), vec![Action::RaiseUsageError]);
    assert_eq!(
        Outcome::InteractUnit { guid: 0xAB, pointer: 0x40, autoloot: 1 }.actions(),
        vec![Action::SetTarget(0xAB), Action::InteractUnit { pointer: 0x40, autoloot: 1 }]
    );
    assert_eq!(
        Outcome::InteractObject { pointer: 0xC0, autoloot: 0 }.actions(),
        vec![Action::InteractObject { pointer: 0xC0, autoloot: 0 }]
    );
}

#[test]
fn test_autoloot_is_passed_through_unchanged() {
    let near = [Entity::unit(1, 16, bits(1.0), 100, false, false)];
    for autoloot in [i32::MIN, -1, 0, 1, 2, i32::MAX] {
        assert_eq!(
            interact_nearest(true, Some(autoloot), &world(&near)),
            Outcome::InteractUnit { guid: 1, pointer: 16, autoloot }
        );
    }
}

#[test]
fn test_command_prefers_lootable_remains_over_nearer_object() {
    let scene = [
        Entity::game_object(2, 32, bits(1.0), 1731),
        Entity::unit(1, 16, bits(3.0), 0, true, false),
    ];
    assert_eq!(
        interact_nearest(true, Some(1), &world(&scene)),
        Outcome::InteractUnit { guid: 1, pointer: 16, autoloot: 1 }
    );
}

#[test]
fn test_unresolved_agent_reports_no_result() {
    let mut snapshot = world(&[Entity::unit(1, 16, bits(1.0), 100, false, false)]);
    snapshot.player = None;
    assert_eq!(interact_nearest(true, Some(1), &snapshot), Outcome::NoResult);
    let (asked, _) = run(&[Event::InWorld(true), Event::Argument(Some(1)), Event::Player(None)]);
    assert_eq!(asked.last(), Some(&Request::Finish(Outcome::NoResult)));
    assert_eq!(asked.len(), 4);
}

#[test]
fn test_plan_interaction_by_kind() {
    let candidate = |obj_type| Candidate { guid: 5, pointer: 80, obj_type, distance: bits(1.0) };
    assert_eq!(plan_interaction(None, 1), Outcome::NoResult);
    assert_eq!(
        plan_interaction(Some((candidate(ObjectType::Unit), PriorityClass::AliveUnit)), 1),
        Outcome::InteractUnit { guid: 5, pointer: 80, autoloot: 1 }
    );
    assert_eq!(
        plan_interaction(Some((candidate(ObjectType::GameObject), PriorityClass::GameObject)), 2),
        Outcome::InteractObject { pointer: 80, autoloot: 2 }
    );
    for kind in [
        ObjectType::NoObject,
        ObjectType::Item,
        ObjectType::Container,
        ObjectType::Player,
        ObjectType::DynamicObject,
        ObjectType::Corpse,
    ] {
        assert_eq!(
            plan_interaction(Some((candidate(kind), PriorityClass::GameObject)), 1),
            Outcome::NoResult
        );
    }
}

#[test]
fn test_call_asks_step_by_step() {
    let npc = Entity::unit(1, 16, bits(4.0), 100, false, false);
    let chest = Entity::game_object(2, 32, bits(4.5), 1731);
    let (asked, invocation) = run(&[
        Event::InWorld(true),
        Event::Argument(Some(1)),
        Event::Player(Some(0x0800)),
        Event::ListHead(0x1000),
        Event::Visited { entity: Some(npc), next: 0x1040 },
        Event::Visited { entity: None, next: 0x1080 },
        Event::Visited { entity: Some(chest), next: 0x10C1 },
    ]);
    assert_eq!(
        asked,
        vec![
            Request::IsInWorld,
            Request::Argument,
            Request::Player,
            Request::ListHead,
            Request::Visit(0x1000),
            Request::Visit(0x1040),
            Request::Visit(0x1080),
            Request::Finish(Outcome::InteractObject { pointer: 32, autoloot: 1 }),
        ]
    );
    assert_eq!(invocation.phase, Phase::Finished);
    assert_eq!(invocation.ranker.alive_unit.guid, 1);
}

#[test]
fn test_terminal_head_ends_the_walk_at_once() {
    for head in [0u32, 1, 0x1001] {
        let (asked, _) = run(&[
            Event::InWorld(true),
            Event::Argument(Some(1)),
            Event::Player(Some(0x0800)),
            Event::ListHead(head),
        ]);
        assert_eq!(asked.last(), Some(&Request::Finish(Outcome::NoResult)));
    }
}

#[test]
fn test_event_that_answers_nothing_ends_the_call() {
    let (asked, invocation) = run(&[Event::Argument(Some(1))]);
    assert_eq!(asked, vec![Request::IsInWorld, Request::Finish(Outcome::NoResult)]);
    assert_eq!(invocation.phase, Phase::Finished);
    let (asked, _) = run(&[Event::InWorld(true), Event::ListHead(0x1000)]);
    assert_eq!(asked.last(), Some(&Request::Finish(Outcome::NoResult)));
    // A finished call stays finished.
    let (asked, _) = run(&[Event::InWorld(false), Event::InWorld(true), Event::Argument(Some(1))]);
    assert_eq!(
        asked,
        vec![
            Request::IsInWorld,
            Request::Finish(Outcome::NoResult),
            Request::Finish(Outcome::NoResult),
            Request::Finish(Outcome::NoResult),
        ]
    );
}

#[test]
fn test_lua_error_message() {
    assert_eq!(
        LuaError::NotInitialized.message(),
        "Lua API not initialized - ensure DLL is properly loaded"
    );
}
