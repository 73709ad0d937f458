use battlesnake_game_types::ids::SnakeId;
use battlesnake_game_types::moves::Move;
use battlesnake_game_types::sim::{joint_move_combinations, SimulableGame, SimulatorInstruments};
use std::time::Duration;

#[derive(Debug)]
struct NoopInstruments;

impl SimulatorInstruments for NoopInstruments {
    fn observe_simulation(&self, _duration: Duration) {}
}

/// A minimal board: simulation only counts ticks, so every joint move choice
/// resolves to the same successor state.
#[derive(Debug, Clone, PartialEq)]
struct CountingBoard {
    ticks: u32,
}

impl SimulableGame<NoopInstruments> for CountingBoard {
    type SnakeIDType = SnakeId;

    fn simulate_with_moves(
        &self,
        instruments: &NoopInstruments,
        snake_ids_and_moves: Vec<(SnakeId, Vec<Move>)>,
    ) -> Vec<(Vec<(SnakeId, Move)>, Self)> {
        let combos = joint_move_combinations(&snake_ids_and_moves);
        instruments.observe_simulation(Duration::from_millis(0));
        combos
            .into_iter()
            .map(|tags| (tags, CountingBoard { ticks: self.ticks + 1 }))
            .collect()
    }
}

#[test]
fn simulate_with_moves_enumerates_the_cartesian_product() {
    let board = CountingBoard { ticks: 0 };
    let request = vec![
        (SnakeId(0), vec![Move::Up, Move::Down]),
        (SnakeId(1), vec![Move::Up, Move::Down]),
    ];
    let results = board.simulate_with_moves(&NoopInstruments, request);
    let tags: Vec<Vec<(SnakeId, Move)>> = results.into_iter().map(|(t, _)| t).collect();
    assert_eq!(
        tags,
        vec![
            vec![(SnakeId(0), Move::Up), (SnakeId(1), Move::Up)],
            vec![(SnakeId(0), Move::Up), (SnakeId(1), Move::Down)],
            vec![(SnakeId(0), Move::Down), (SnakeId(1), Move::Up)],
            vec![(SnakeId(0), Move::Down), (SnakeId(1), Move::Down)],
        ]
    );
}

#[test]
fn simulate_gives_every_identity_all_four_moves() {
    let board = CountingBoard { ticks: 0 };
    let ids = vec![SnakeId(0), SnakeId(1), SnakeId(2)];
    let results = board.simulate(&NoopInstruments, ids);
    // 4^3 joint outcomes
    assert_eq!(results.len(), 64);
    for (tags, successor) in &results {
        assert_eq!(tags.len(), 3);
        assert_eq!(tags[0].0, SnakeId(0));
        assert_eq!(tags[1].0, SnakeId(1));
        assert_eq!(tags[2].0, SnakeId(2));
        assert_eq!(successor.ticks, 1);
    }
    // each joint combination appears exactly once
    for i in 0..results.len() {
        for j in (i + 1)..results.len() {
            assert_ne!(results[i].0, results[j].0);
        }
    }
}

#[test]
fn simulate_single_identity_in_canonical_order() {
    let board = CountingBoard { ticks: 3 };
    let results = board.simulate(&NoopInstruments, vec![SnakeId(7)]);
    let tags: Vec<Vec<(SnakeId, Move)>> = results.into_iter().map(|(t, _)| t).collect();
    assert_eq!(
        tags,
        vec![
            vec![(SnakeId(7), Move::Up)],
            vec![(SnakeId(7), Move::Down)],
            vec![(SnakeId(7), Move::Left)],
            vec![(SnakeId(7), Move::Right)],
        ]
    );
}

#[test]
fn joint_move_combinations_of_no_identities() {
    let combos = joint_move_combinations::<SnakeId>(&vec![]);
    assert_eq!(combos.len(), 1);
    assert!(combos[0].is_empty());
}

#[test]
fn joint_move_combinations_with_an_empty_candidate_set() {
    let combos = joint_move_combinations(&vec![
        (SnakeId(0), vec![Move::Up, Move::Down]),
        (SnakeId(1), vec![]),
    ]);
    assert_eq!(combos.len(), 0);
}

#[test]
fn joint_move_combinations_mixed_candidate_sizes() {
    let combos = joint_move_combinations(&vec![
        (SnakeId(0), vec![Move::Left]),
        (SnakeId(1), vec![Move::Up, Move::Right]),
    ]);
    assert_eq!(
        combos,
        vec![
            vec![(SnakeId(0), Move::Left), (SnakeId(1), Move::Up)],
            vec![(SnakeId(0), Move::Left), (SnakeId(1), Move::Right)],
        ]
    );
}
