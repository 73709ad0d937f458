use battlesnake_game_types::moves::Move;

#[test]
fn all_moves_canonical_order() {
    let all = Move::all();
    assert_eq!(all, vec![Move::Up, Move::Down, Move::Left, Move::Right]);
    // the order is stable across calls
    assert_eq!(Move::all(), Move::all());
}

#[test]
fn as_index_is_a_bijection() {
    let mut seen = [false; 4];
    for m in Move::all() {
        let i = m.as_index();
        assert!(i < 4);
        assert!(!seen[i]);
        seen[i] = true;
    }
    assert!(seen[0] && seen[1] && seen[2] && seen[3]);
}

#[test]
fn as_index_follows_canonical_order() {
    assert_eq!(Move::Up.as_index(), 0);
    assert_eq!(Move::Down.as_index(), 1);
    assert_eq!(Move::Left.as_index(), 2);
    assert_eq!(Move::Right.as_index(), 3);
    for (i, m) in Move::all().into_iter().enumerate() {
        assert_eq!(m.as_index(), i);
    }
}

#[test]
fn to_vector_left_and_up_examples() {
    let v = Move::Left.to_vector();
    assert_eq!(v.x, -1);
    assert_eq!(v.y, 0);
    assert_eq!(Move::Up.as_index(), 0);
}

#[test]
fn to_vector_all_displacements() {
    let up = Move::Up.to_vector();
    assert_eq!((up.x, up.y), (0, 1));
    let down = Move::Down.to_vector();
    assert_eq!((down.x, down.y), (0, -1));
    let left = Move::Left.to_vector();
    assert_eq!((left.x, left.y), (-1, 0));
    let right = Move::Right.to_vector();
    assert_eq!((right.x, right.y), (1, 0));
}

#[test]
fn opposite_displacements_cancel() {
    let up = Move::Up.to_vector();
    let down = Move::Down.to_vector();
    assert_eq!(up.x + down.x, 0);
    assert_eq!(up.y + down.y, 0);
    let left = Move::Left.to_vector();
    let right = Move::Right.to_vector();
    assert_eq!(left.x + right.x, 0);
    assert_eq!(left.y + right.y, 0);
}

#[test]
fn is_not_opposite_symmetric_and_exact() {
    for a in Move::all() {
        for b in Move::all() {
            assert_eq!(a.is_not_opposite(&b), b.is_not_opposite(&a));
            let opposite = matches!(
                (a, b),
                (Move::Up, Move::Down)
                    | (Move::Down, Move::Up)
                    | (Move::Left, Move::Right)
                    | (Move::Right, Move::Left)
            );
            assert_eq!(a.is_not_opposite(&b), !opposite);
        }
    }
}

#[test]
fn move_names_are_lowercase_words() {
    assert_eq!(Move::Left.name(), "left");
    assert_eq!(Move::Right.name(), "right");
    assert_eq!(Move::Up.name(), "up");
    assert_eq!(Move::Down.name(), "down");
}
