//! The closed vocabulary of the four cardinal moves, with their displacement
//! vectors, canonical enumeration order, canonical indices and the "opposite"
//! relation used by heuristic move filtering.

use vstd::prelude::*;

verus! {

/// A vector with which to do positional math.
#[derive(Debug, Clone, Copy)]
pub struct Vector {
    /// x position
    pub x: i64,
    /// y position
    pub y: i64,
}

/// Represents a move: one of the four cardinal directions a participant can
/// choose on a tick.
#[derive(Debug, Clone, Copy, PartialEq, Eq, Hash, Structural)]
pub enum Move {
    #[allow(missing_docs)]
    Left,
    #[allow(missing_docs)]
    Down,
    #[allow(missing_docs)]
    Up,
    #[allow(missing_docs)]
    Right,
}

impl Move {
    /// The displacement this move applies to a coordinate.
    pub open spec fn spec_to_vector(self) -> Vector {
        match self {
            Move::Left => Vector { x: -1i64, y: 0i64 },
            Move::Right => Vector { x: 1i64, y: 0i64 },
            Move::Up => Vector { x: 0i64, y: 1i64 },
            Move::Down => Vector { x: 0i64, y: -1i64 },
        }
    }

    /// convert this move to a vector
    pub fn to_vector(self) -> (r: Vector)
        ensures
            r == self.spec_to_vector(),
    {
        match self {
            Move::Left => Vector { x: -1, y: 0 },
            Move::Right => Vector { x: 1, y: 0 },
            Move::Up => Vector { x: 0, y: 1 },
            Move::Down => Vector { x: 0, y: -1 },
        }
    }

    /// The four moves in their fixed canonical order.
    pub open spec fn all_moves() -> Seq<Move> {
        seq![Move::Up, Move::Down, Move::Left, Move::Right]
    }

    /// returns a vec of all possible moves, always in the fixed canonical
    /// order given by [`Move::all_moves`]
    pub fn all() -> (r: Vec<Move>)
        ensures
            r@ == Move::all_moves(),
    {
        let mut r: Vec<Move> = Vec::new();
        r.push(Move::Up);
        r.push(Move::Down);
        r.push(Move::Left);
        r.push(Move::Right);
        proof {
            assert(r@ =~= Move::all_moves());
        }
        r
    }

    /// The canonical index of this move, consistent with the canonical order.
    pub open spec fn spec_as_index(self) -> int {
        match self {
            Move::Up => 0,
            Move::Down => 1,
            Move::Left => 2,
            Move::Right => 3,
        }
    }

    /// converts this move to a usize index. indices are in the same order as
    /// the `Move::all()` method
    pub fn as_index(&self) -> (r: usize)
        ensures
            r == self.spec_as_index(),
    {
        match self {
            Move::Up => 0,
            Move::Down => 1,
            Move::Left => 2,
            Move::Right => 3,
        }
    }

    /// Whether `other` is not the reverse of `self`: true except for the
    /// pairs Up/Down, Down/Up, Left/Right and Right/Left.
    pub open spec fn spec_is_not_opposite(self, other: Move) -> bool {
        !match (self, other) {
            (Move::Up, Move::Down) => true,
            (Move::Down, Move::Up) => true,
            (Move::Left, Move::Right) => true,
            (Move::Right, Move::Left) => true,
            _ => false,
        }
    }

    /// checks if a given move is not opposite to this move. e.g. Up is not
    /// opposite to Left, but is opposite to Down
    pub fn is_not_opposite(&self, other: &Move) -> (r: bool)
        ensures
            r == self.spec_is_not_opposite(*other),
    {
        !match (self, other) {
            (Move::Up, Move::Down) => true,
            (Move::Down, Move::Up) => true,
            (Move::Left, Move::Right) => true,
            (Move::Right, Move::Left) => true,
            _ => false,
        }
    }

    /// The canonical display name of this move: a lowercase English word.
    pub open spec fn spec_name(self) -> Seq<char> {
        match self {
            Move::Left => "left"@,
            Move::Right => "right"@,
            Move::Up => "up"@,
            Move::Down => "down"@,
        }
    }

    /// the canonical display name of this move
    pub fn name(&self) -> (r: &'static str)
        ensures
            r@ == self.spec_name(),
    {
        match self {
            Move::Left => "left",
            Move::Right => "right",
            Move::Up => "up",
            Move::Down => "down",
        }
    }
}

/// Law: `as_index` is a bijection between the four moves and {0, 1, 2, 3},
/// consistent with the canonical order of `Move::all`.
pub proof fn lemma_as_index_bijective()
    ensures
        forall|m: Move| 0 <= #[trigger] m.spec_as_index() < 4,
        forall|a: Move, b: Move|
            #[trigger] a.spec_as_index() == #[trigger] b.spec_as_index() ==> a == b,
        forall|i: int|
            0 <= i < 4 ==> #[trigger] Move::all_moves()[i].spec_as_index() == i,
{
    assert(Move::all_moves()[0] == Move::Up);
    assert(Move::all_moves()[1] == Move::Down);
    assert(Move::all_moves()[2] == Move::Left);
    assert(Move::all_moves()[3] == Move::Right);
}

/// Law: the displacements of Up and Down cancel, and so do the displacements
/// of Left and Right.
pub proof fn lemma_to_vector_opposites_cancel()
    ensures
        Move::Up.spec_to_vector().x + Move::Down.spec_to_vector().x == 0,
        Move::Up.spec_to_vector().y + Move::Down.spec_to_vector().y == 0,
        Move::Left.spec_to_vector().x + Move::Right.spec_to_vector().x == 0,
        Move::Left.spec_to_vector().y + Move::Right.spec_to_vector().y == 0,
{
}

/// Law: `is_not_opposite` is symmetric, and false exactly for the four pairs
/// Up/Down, Down/Up, Left/Right and Right/Left.
pub proof fn lemma_is_not_opposite_characterisation()
    ensures
        forall|a: Move, b: Move|
            #[trigger] a.spec_is_not_opposite(b) == b.spec_is_not_opposite(a),
        forall|a: Move, b: Move|
            ! #[trigger] a.spec_is_not_opposite(b) <==> ((a == Move::Up && b == Move::Down)
                || (a == Move::Down && b == Move::Up) || (a == Move::Left && b == Move::Right) || (
            a == Move::Right && b == Move::Left)),
{
}

/// Law: the canonical enumeration holds each of the four moves exactly once.
pub proof fn lemma_all_moves_exhaustive()
    ensures
        Move::all_moves().len() == 4,
        forall|m: Move| Move::all_moves().contains(m),
        forall|i: int, j: int|
            0 <= i < j < Move::all_moves().len() ==> Move::all_moves()[i] != Move::all_moves()[j],
{
    assert forall|m: Move| Move::all_moves().contains(m) by {
        match m {
            Move::Up => assert(Move::all_moves()[0] == m),
            Move::Down => assert(Move::all_moves()[1] == m),
            Move::Left => assert(Move::all_moves()[2] == m),
            Move::Right => assert(Move::all_moves()[3] == m),
        }
    }
}

} // verus!
