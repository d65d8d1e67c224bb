use gladoid::actions::ActionKind;
use gladoid::schedules::GladoidGameWorld;

/// With two candidates crossing the threshold together the weighted draw
/// decides; over many fresh matches each of them must win the draw at
/// least once (the weights are equal, so a one-sided run of this length
/// is vanishingly unlikely).
#[test]
fn weighted_draw_reaches_every_candidate() {
    let mut first = 0u32;
    let mut second = 0u32;
    for _ in 0..100 {
        let mut world = GladoidGameWorld::new();
        world.spawn_player("A".to_string(), 10).unwrap();
        world.spawn_player("B".to_string(), 10).unwrap();
        world.tick().unwrap();
        world.tick().unwrap();
        let actor = world.check_need_action_from().unwrap();
        match actor.id {
            1 => first += 1,
            2 => second += 1,
            _ => panic!("granted id out of range"),
        }
    }
    assert!(first >= 1, "one candidate never won the weighted draw");
    assert!(second >= 1, "one candidate never won the weighted draw");
    assert_eq!(first + second, 100);
}

/// With three equal candidates the draw still grants exactly one turn,
/// always to a living combatant of the match.
#[test]
fn draw_among_three_grants_one_valid_actor() {
    for _ in 0..30 {
        let mut world = GladoidGameWorld::new();
        world.spawn_player("A".to_string(), 10).unwrap();
        world.spawn_player("B".to_string(), 10).unwrap();
        world.spawn_player("C".to_string(), 10).unwrap();
        world.tick().unwrap();
        world.tick().unwrap();
        assert!(world.check_need_action());
        let actor = world.check_need_action_from().unwrap();
        assert!(actor.id >= 1 && actor.id <= 3);
        assert!(world.check_is_alive(actor.id));
        world.insert_action(ActionKind::NoAction, None).unwrap();
        world.tick().unwrap();
        assert!(!world.check_need_action());
    }
}
