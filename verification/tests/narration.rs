use gladoid::actions::ActionKind;
use gladoid::schedules::GladoidGameWorld;

#[test]
fn progress_narration_per_tick() {
    let mut world = GladoidGameWorld::new();
    world.spawn_player("A".to_string(), 10).unwrap();
    world.spawn_player("B".to_string(), 10).unwrap();
    world.tick().unwrap();
    let msgs = world.get_game_messages();
    assert_eq!(
        msgs,
        vec![
            "A has 50 progress for a turn.".to_string(),
            "B has 50 progress for a turn.".to_string(),
        ]
    );
    assert!(world.get_game_messages().is_empty());
}

#[test]
fn grant_narration_names_the_actor() {
    let mut world = GladoidGameWorld::new();
    world.spawn_player("A".to_string(), 10).unwrap();
    world.spawn_player("B".to_string(), 10).unwrap();
    world.tick().unwrap();
    world.get_game_messages();
    world.tick().unwrap();
    let actor = world.check_need_action_from().unwrap();
    let msgs = world.get_game_messages();
    assert_eq!(msgs.len(), 3);
    assert_eq!(msgs[0], "A has 100 progress for a turn.");
    assert_eq!(msgs[1], "B has 100 progress for a turn.");
    assert_eq!(msgs[2], format!("Giving turn to {}.", actor.name));
}

#[test]
fn attack_narration_in_stage_order() {
    let mut world = GladoidGameWorld::new();
    world.spawn_player("A".to_string(), 10).unwrap();
    world.spawn_player("B".to_string(), 10).unwrap();
    world.tick().unwrap();
    world.tick().unwrap();
    let actor = world.check_need_action_from().unwrap();
    let other_id = if actor.id == 1 { 2 } else { 1 };
    let other_name = if actor.id == 1 { "B" } else { "A" };
    world.insert_action(ActionKind::Attack, Some(other_id)).unwrap();
    world.get_game_messages();
    world.tick().unwrap();
    let msgs = world.get_game_messages();
    assert_eq!(
        msgs,
        vec![
            format!(
                "{} hit {} in the head with a Kılıç.",
                actor.name, other_name
            ),
            format!(
                "{} took 3 damage. {} has 7 hp left",
                other_name, other_name
            ),
            format!("Removing turn from {}...", actor.name),
        ]
    );
}

#[test]
fn ungranted_candidate_keeps_progress() {
    let mut world = GladoidGameWorld::new();
    world.spawn_player("A".to_string(), 10).unwrap();
    world.spawn_player("B".to_string(), 10).unwrap();
    world.tick().unwrap();
    world.tick().unwrap();
    let actor = world.check_need_action_from().unwrap();
    let other_name = if actor.id == 1 { "B" } else { "A" };
    world.insert_action(ActionKind::NoAction, None).unwrap();
    world.tick().unwrap();
    world.get_game_messages();
    world.tick().unwrap();
    let msgs = world.get_game_messages();
    // The chosen combatant was reset to zero and accrues again; the
    // candidate that lost the draw kept its hundred and accrues on top.
    assert!(msgs.contains(&format!("{} has 50 progress for a turn.", actor.name)));
    assert!(msgs.contains(&format!("{} has 150 progress for a turn.", other_name)));
    assert!(msgs.contains(&format!("Giving turn to {}.", other_name)));
}

#[test]
fn death_and_victory_narrated_once() {
    let mut world = GladoidGameWorld::new();
    world.spawn_player("A".to_string(), 2).unwrap();
    world.spawn_player("B".to_string(), 2).unwrap();
    world.tick().unwrap();
    world.tick().unwrap();
    let actor = world.check_need_action_from().unwrap();
    let other_id = if actor.id == 1 { 2 } else { 1 };
    let other_name = if actor.id == 1 { "B" } else { "A" };
    world.insert_action(ActionKind::Attack, Some(other_id)).unwrap();
    world.get_game_messages();
    world.tick().unwrap();
    let msgs = world.get_game_messages();
    assert_eq!(
        msgs,
        vec![
            format!(
                "{} hit {} in the head with a Kılıç.",
                actor.name, other_name
            ),
            format!(
                "{} took 3 damage. {} has -1 hp left",
                other_name, other_name
            ),
            format!("{} died.", other_name),
            format!("{} won.", actor.name),
            format!("Removing turn from {}...", actor.name),
        ]
    );
    let victory = format!("{} won.", actor.name);
    assert_eq!(msgs.iter().filter(|m| **m == victory).count(), 1);
    assert!(world.is_done());
    assert!(world.tick().is_err());
    assert!(world.get_game_messages().is_empty());
}

#[test]
fn negative_health_rendered_with_sign() {
    let mut world = GladoidGameWorld::new();
    world.spawn_player("A".to_string(), 10).unwrap();
    world.spawn_player("B".to_string(), 1).unwrap();
    let mut all: Vec<String> = Vec::new();
    for _ in 0..20 {
        if world.is_done() {
            break;
        }
        world.tick().unwrap();
        all.extend(world.get_game_messages());
        if world.check_need_action() {
            let actor = world.check_need_action_from().unwrap();
            let target = if actor.id == 1 { 2 } else { 1 };
            world.insert_action(ActionKind::Attack, Some(target)).unwrap();
        }
    }
    assert!(world.is_done());
    assert!(all.iter().any(|m| m.contains("B has -2 hp left")));
    assert!(all.iter().any(|m| *m == "B died."));
    assert!(all.iter().any(|m| *m == "A won."));
}
