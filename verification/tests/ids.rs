use battlesnake_game_types::ids::{build_snake_id_map, GameSnapshot, SnakeId};

fn snapshot(you: &str, roster: &[&str]) -> GameSnapshot {
    GameSnapshot {
        you_id: you.to_string(),
        roster: roster.iter().map(|s| s.to_string()).collect(),
    }
}

#[test]
fn controlling_participant_is_identity_zero() {
    let map = build_snake_id_map(&snapshot("self", &["self", "a", "b"]));
    assert_eq!(map.get(&"self".to_string()), Some(SnakeId(0)));
    assert_eq!(map.get(&"a".to_string()), Some(SnakeId(1)));
    assert_eq!(map.get(&"b".to_string()), Some(SnakeId(2)));
}

#[test]
fn other_participants_assigned_in_roster_order() {
    let map = build_snake_id_map(&snapshot("me", &["rival", "me", "friend", "stranger"]));
    assert_eq!(map.get(&"me".to_string()), Some(SnakeId(0)));
    assert_eq!(map.get(&"rival".to_string()), Some(SnakeId(1)));
    assert_eq!(map.get(&"friend".to_string()), Some(SnakeId(2)));
    assert_eq!(map.get(&"stranger".to_string()), Some(SnakeId(3)));
}

#[test]
fn identities_are_distinct_positive_after_zero() {
    let roster = ["a", "b", "you", "c", "d"];
    let map = build_snake_id_map(&snapshot("you", &roster));
    let mut ids: Vec<u8> = Vec::new();
    for name in roster.iter() {
        let id = map.get(&name.to_string()).expect("roster participant must be mapped");
        if *name != "you" {
            assert!(id.0 >= 1);
            assert!(!ids.contains(&id.0));
        }
        ids.push(id.0);
    }
    // assigned in roster order, skipping the controlling participant
    assert_eq!(ids, vec![1, 2, 0, 3, 4]);
}

#[test]
fn lone_controlling_participant() {
    let map = build_snake_id_map(&snapshot("solo", &["solo"]));
    assert_eq!(map.get(&"solo".to_string()), Some(SnakeId(0)));
    assert_eq!(map.get(&"other".to_string()), None);
}

#[test]
fn duplicate_controlling_identifier_is_skipped() {
    let map = build_snake_id_map(&snapshot("you", &["you", "a", "you", "b"]));
    assert_eq!(map.get(&"you".to_string()), Some(SnakeId(0)));
    assert_eq!(map.get(&"a".to_string()), Some(SnakeId(1)));
    assert_eq!(map.get(&"b".to_string()), Some(SnakeId(2)));
}

#[test]
fn unknown_identifier_is_unmapped() {
    let map = build_snake_id_map(&snapshot("self", &["self", "a"]));
    assert_eq!(map.get(&"b".to_string()), None);
    assert_eq!(map.get(&"".to_string()), None);
}
