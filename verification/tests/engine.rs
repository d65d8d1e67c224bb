use gladoid::actions::{ActionError, ActionKind, MatchEndedError, SpawnError};
use gladoid::schedules::GladoidGameWorld;
use gladoid::structs::GameWorldState;

fn spawn_two(hp: i16) -> GladoidGameWorld {
    let mut world = GladoidGameWorld::new();
    world.spawn_player("A".to_string(), hp).unwrap();
    world.spawn_player("B".to_string(), hp).unwrap();
    world
}

/// Ticks until a decision is awaited and returns (actor id, other id).
fn race_until_turn(world: &mut GladoidGameWorld) -> (u32, u32) {
    for _ in 0..10 {
        world.tick().unwrap();
        if world.check_need_action() {
            let actor = world.check_need_action_from().unwrap();
            let other = if actor.id == 1 { 2 } else { 1 };
            return (actor.id, other);
        }
    }
    panic!("no combatant ever received the turn");
}

#[test]
fn empty_world_ticks_without_turns() {
    let mut world = GladoidGameWorld::new();
    for _ in 0..5 {
        world.tick().unwrap();
        assert!(!world.check_need_action());
        assert!(world.check_need_action_from().is_none());
        assert!(!world.is_done());
    }
}

#[test]
fn no_turn_before_threshold() {
    let mut world = spawn_two(10);
    world.tick().unwrap();
    assert!(!world.check_need_action());
    assert_eq!(world.get_state(), GameWorldState::Fighting);
}

#[test]
fn turn_granted_at_threshold() {
    let mut world = spawn_two(10);
    world.tick().unwrap();
    world.tick().unwrap();
    assert!(world.check_need_action());
    assert_eq!(world.get_state(), GameWorldState::NeedAction);
    let actor = world.check_need_action_from().unwrap();
    assert!(actor.id == 1 || actor.id == 2);
    let name = if actor.id == 1 { "A" } else { "B" };
    assert_eq!(actor.name, name);
}

#[test]
fn attack_resolves_three_damage() {
    let mut world = spawn_two(10);
    let (actor, other) = race_until_turn(&mut world);
    world.insert_action(ActionKind::Attack, Some(other)).unwrap();
    world.tick().unwrap();
    assert_eq!(world.get_health(other), Some(7));
    assert_eq!(world.get_health(actor), Some(10));
    assert!(world.check_is_alive(other));
    assert!(!world.is_done());
    assert_eq!(world.get_state(), GameWorldState::Fighting);
}

#[test]
fn suspended_while_awaiting_action() {
    let mut world = spawn_two(10);
    let (actor, _) = race_until_turn(&mut world);
    world.get_game_messages();
    for _ in 0..3 {
        world.tick().unwrap();
        assert!(world.check_need_action());
        assert_eq!(world.check_need_action_from().unwrap().id, actor);
    }
    assert!(world.get_game_messages().is_empty());
}

#[test]
fn lethal_attack_ends_match() {
    let mut world = spawn_two(3);
    let (_, other) = race_until_turn(&mut world);
    world.insert_action(ActionKind::Attack, Some(other)).unwrap();
    world.tick().unwrap();
    assert_eq!(world.get_health(other), Some(0));
    assert!(!world.check_is_alive(other));
    assert!(world.is_done());
    assert_eq!(world.get_state(), GameWorldState::Done);
    assert_eq!(world.tick(), Err(MatchEndedError));
}

#[test]
fn tick_after_end_changes_nothing() {
    let mut world = spawn_two(3);
    let (actor, other) = race_until_turn(&mut world);
    world.insert_action(ActionKind::Attack, Some(other)).unwrap();
    world.tick().unwrap();
    world.get_game_messages();
    assert_eq!(world.tick(), Err(MatchEndedError));
    assert_eq!(world.tick(), Err(MatchEndedError));
    assert!(world.get_game_messages().is_empty());
    assert_eq!(world.get_health(actor), Some(3));
    assert_eq!(world.get_health(other), Some(0));
}

#[test]
fn spawn_rejected_after_end() {
    let mut world = spawn_two(3);
    let (_, other) = race_until_turn(&mut world);
    world.insert_action(ActionKind::Attack, Some(other)).unwrap();
    world.tick().unwrap();
    assert_eq!(
        world.spawn_player("C".to_string(), 10),
        Err(SpawnError::MatchEnded)
    );
}

#[test]
fn resubmission_without_need_fails() {
    let mut world = spawn_two(10);
    let (_, other) = race_until_turn(&mut world);
    world.insert_action(ActionKind::Attack, Some(other)).unwrap();
    assert_eq!(
        world.insert_action(ActionKind::Attack, Some(other)),
        Err(ActionError::NoPendingAction)
    );
    world.tick().unwrap();
    assert_eq!(world.get_health(other), Some(7));
}

#[test]
fn heal_consumes_turn_without_effect() {
    let mut world = spawn_two(10);
    let (actor, other) = race_until_turn(&mut world);
    world.insert_action(ActionKind::Heal, None).unwrap();
    world.tick().unwrap();
    assert_eq!(world.get_health(actor), Some(10));
    assert_eq!(world.get_health(other), Some(10));
    assert!(!world.check_need_action());
    assert_eq!(world.get_state(), GameWorldState::Fighting);
}

#[test]
fn no_action_consumes_turn() {
    let mut world = spawn_two(10);
    let (_, _) = race_until_turn(&mut world);
    world.insert_action(ActionKind::NoAction, None).unwrap();
    world.tick().unwrap();
    assert!(!world.check_need_action());
    let (next_actor, _) = race_until_turn(&mut world);
    assert!(next_actor == 1 || next_actor == 2);
}

#[test]
fn dead_combatant_stays_excluded() {
    let mut world = GladoidGameWorld::new();
    world.spawn_player("A".to_string(), 30).unwrap();
    world.spawn_player("B".to_string(), 3).unwrap();
    world.spawn_player("C".to_string(), 30).unwrap();
    let victim: u32 = 2;
    loop {
        world.tick().unwrap();
        if world.check_need_action() {
            let actor = world.check_need_action_from().unwrap();
            if actor.id != victim {
                world
                    .insert_action(ActionKind::Attack, Some(victim))
                    .unwrap();
                world.tick().unwrap();
                break;
            }
            world.insert_action(ActionKind::NoAction, None).unwrap();
            world.tick().unwrap();
        }
    }
    assert!(!world.check_is_alive(victim));
    assert!(!world.is_done());
    for _ in 0..20 {
        world.tick().unwrap();
        if world.check_need_action() {
            let actor = world.check_need_action_from().unwrap();
            assert_ne!(actor.id, victim);
            assert_eq!(
                world.insert_action(ActionKind::Attack, Some(victim)),
                Err(ActionError::InvalidTarget)
            );
            world.insert_action(ActionKind::NoAction, None).unwrap();
        }
    }
    assert!(!world.check_is_alive(victim));
}

#[test]
fn spawn_while_awaiting_action_joins_the_match() {
    let mut world = spawn_two(10);
    let (_, other) = race_until_turn(&mut world);
    world.spawn_player("C".to_string(), 10).unwrap();
    assert_eq!(world.get_health(3), Some(10));
    assert!(world.check_is_alive(3));
    world.insert_action(ActionKind::Attack, Some(other)).unwrap();
    world.tick().unwrap();
    assert_eq!(world.get_health(other), Some(7));
    assert_eq!(world.get_health(3), Some(10));
}

#[test]
fn ids_are_assigned_in_spawn_order() {
    let mut world = GladoidGameWorld::new();
    world.spawn_player("A".to_string(), 5).unwrap();
    world.spawn_player("B".to_string(), 6).unwrap();
    world.spawn_player("C".to_string(), 7).unwrap();
    assert_eq!(world.get_health(1), Some(5));
    assert_eq!(world.get_health(2), Some(6));
    assert_eq!(world.get_health(3), Some(7));
    assert_eq!(world.get_health(4), None);
    assert_eq!(world.get_health(0), None);
    assert!(world.check_is_alive(1));
    assert!(!world.check_is_alive(4));
}
