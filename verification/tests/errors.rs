use gladoid::actions::{ActionError, ActionKind};
use gladoid::schedules::GladoidGameWorld;

fn world_awaiting_action() -> GladoidGameWorld {
    let mut world = GladoidGameWorld::new();
    world.spawn_player("A".to_string(), 10).unwrap();
    world.spawn_player("B".to_string(), 10).unwrap();
    world.tick().unwrap();
    world.tick().unwrap();
    assert!(world.check_need_action());
    world
}

#[test]
fn submit_without_need_is_rejected() {
    let mut world = GladoidGameWorld::new();
    world.spawn_player("A".to_string(), 10).unwrap();
    world.spawn_player("B".to_string(), 10).unwrap();
    assert_eq!(
        world.insert_action(ActionKind::Attack, Some(2)),
        Err(ActionError::NoPendingAction)
    );
    world.tick().unwrap();
    assert_eq!(
        world.insert_action(ActionKind::Heal, None),
        Err(ActionError::NoPendingAction)
    );
}

#[test]
fn attack_without_target_is_rejected() {
    let mut world = world_awaiting_action();
    assert_eq!(
        world.insert_action(ActionKind::Attack, None),
        Err(ActionError::MissingTarget)
    );
    assert!(world.check_need_action());
}

#[test]
fn choose_weapon_without_id_is_rejected() {
    let mut world = world_awaiting_action();
    assert_eq!(
        world.insert_action(ActionKind::ChooseWeapon, None),
        Err(ActionError::MissingTarget)
    );
    assert!(world.check_need_action());
}

#[test]
fn attack_on_missing_combatant_is_rejected() {
    let mut world = world_awaiting_action();
    assert_eq!(
        world.insert_action(ActionKind::Attack, Some(99)),
        Err(ActionError::InvalidTarget)
    );
    assert_eq!(
        world.insert_action(ActionKind::Attack, Some(0)),
        Err(ActionError::InvalidTarget)
    );
    assert!(world.check_need_action());
}

#[test]
fn attack_on_self_is_rejected() {
    let mut world = world_awaiting_action();
    let actor = world.check_need_action_from().unwrap();
    assert_eq!(
        world.insert_action(ActionKind::Attack, Some(actor.id)),
        Err(ActionError::InvalidTarget)
    );
    let other = if actor.id == 1 { 2 } else { 1 };
    assert!(world.insert_action(ActionKind::Attack, Some(other)).is_ok());
}

#[test]
fn rejection_leaves_pending_actor_unchanged() {
    let mut world = world_awaiting_action();
    let before = world.check_need_action_from().unwrap();
    let _ = world.insert_action(ActionKind::Attack, None);
    let after = world.check_need_action_from().unwrap();
    assert_eq!(before.id, after.id);
    assert_eq!(before.name, after.name);
}
