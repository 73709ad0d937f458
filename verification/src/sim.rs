//! The capability contracts a concrete board representation implements so
//! that a generic search algorithm can drive it: identity enumeration,
//! "is this identity me" determination, victory determination, joint-move
//! simulation and heuristic move filtering. The board owns all resolution
//! logic (collisions, growth, hazards); this module only fixes the shape of
//! the calls, together with the combinatorial semantics of simulating every
//! joint move choice of a set of participants.

use vstd::prelude::*;
use crate::moves::Move;
use std::time::Duration;

verus! {

/// The per-identity candidate move sets of a simulation request, at spec
/// level.
pub open spec fn candidate_view<ID>(pairs: Seq<(ID, Vec<Move>)>) -> Seq<(ID, Seq<Move>)> {
    pairs.map_values(|p: (ID, Vec<Move>)| (p.0, p.1@))
}

/// A sequence of joint-move tag lists, at spec level.
pub open spec fn combos_view<ID>(v: Seq<Vec<(ID, Move)>>) -> Seq<Seq<(ID, Move)>> {
    v.map_values(|c: Vec<(ID, Move)>| c@)
}

/// Every identity of `ids` paired with the full four-move vocabulary: the
/// candidate sets that the default whole-board simulation uses.
pub open spec fn full_candidates<ID>(ids: Seq<ID>) -> Seq<(ID, Seq<Move>)> {
    ids.map_values(|id: ID| (id, Move::all_moves()))
}

/// The (identity, chosen move) tags of a sequence of simulation results.
pub open spec fn result_tags<ID, G>(results: Seq<(Vec<(ID, Move)>, G)>) -> Seq<Seq<(ID, Move)>> {
    results.map_values(|p: (Vec<(ID, Move)>, G)| p.0@)
}

/// The combination `c` extended by (id, m) for each move m of `ms`, in order.
pub open spec fn extended_combos<ID>(c: Seq<(ID, Move)>, id: ID, ms: Seq<Move>) -> Seq<
    Seq<(ID, Move)>,
> {
    ms.map_values(|m: Move| c.push((id, m)))
}

/// Every combination of `front`, extended by (id, m) for each move m of `ms`.
pub open spec fn expand_combos<ID>(
    front: Seq<Seq<(ID, Move)>>,
    id: ID,
    ms: Seq<Move>,
) -> Seq<Seq<(ID, Move)>> {
    front.flat_map(|c: Seq<(ID, Move)>| extended_combos(c, id, ms))
}

/// All joint move choices over the (identity, candidate move set) pairs of
/// `pairs`: one entry for every way of choosing, for each pair in order, one
/// move from that pair's candidate set. Entries are ordered with the earlier
/// identities' choices varying slowest.
pub open spec fn joint_combinations<ID>(pairs: Seq<(ID, Seq<Move>)>) -> Seq<Seq<(ID, Move)>>
    decreases pairs.len(),
{
    if pairs.len() == 0 {
        seq![Seq::<(ID, Move)>::empty()]
    } else {
        expand_combos(joint_combinations(pairs.drop_last()), pairs.last().0, pairs.last().1)
    }
}

/// The product of the candidate-set sizes of `pairs`: how many joint move
/// choices there are.
pub open spec fn candidate_count<ID>(pairs: Seq<(ID, Seq<Move>)>) -> nat
    decreases pairs.len(),
{
    if pairs.len() == 0 {
        1
    } else {
        candidate_count(pairs.drop_last()) * pairs.last().1.len()
    }
}

/// Four to the `k`-th power: how many joint move choices `k` identities have
/// when each is given the full four-move vocabulary.
pub open spec fn four_to_the(k: nat) -> nat
    decreases k,
{
    if k == 0 {
        1
    } else {
        4 * four_to_the((k - 1) as nat)
    }
}

/// A game for which one can get the snake ids.
pub trait SnakeIDGettableGame {
    #[allow(missing_docs)]
    type SnakeIDType;

    /// the identities currently known to the board, at spec level
    spec fn spec_snake_ids(&self) -> Seq<Self::SnakeIDType>;

    /// enumerate the identities currently known to the board
    fn get_snake_ids(&self) -> (r: Vec<Self::SnakeIDType>)
        ensures
            r@ == self.spec_snake_ids(),
    ;
}

/// Instruments to be used with simulation: an observability sink to which the
/// board reports the elapsed wall time of each simulation batch. No promise
/// is made about what the sink does with a measurement.
pub trait SimulatorInstruments {
    #[allow(missing_docs)]
    fn observe_simulation(&self, duration: Duration);
}

/// A game for which "you" (the controlling participant) is determinable.
pub trait YouDeterminableGame {
    #[allow(missing_docs)]
    type SnakeIDType;

    /// the controlling participant's identity, at spec level
    spec fn spec_you_id(&self) -> Self::SnakeIDType;

    /// determines for a given game if a given snake id is you
    fn is_you(&self, snake_id: &Self::SnakeIDType) -> (r: bool)
        ensures
            r == (*snake_id == self.spec_you_id()),
    ;

    /// get the id for you for a given game
    fn you_id(&self) -> (r: &Self::SnakeIDType)
        ensures
            *r == self.spec_you_id(),
    ;
}

/// A game which can have its winner determined.
pub trait VictorDeterminableGame {
    #[allow(missing_docs)]
    type SnakeIDType;

    /// whether the game is over, at spec level
    spec fn spec_is_over(&self) -> bool;

    /// the winner, at spec level: None while the game is not over, and None
    /// for a draw
    spec fn spec_winner(&self) -> Option<Self::SnakeIDType>;

    #[allow(missing_docs)]
    fn is_over(&self) -> (r: bool)
        ensures
            r == self.spec_is_over(),
    ;

    /// get the winner for a given game; returns None in the case of a draw,
    /// or if the game is not over
    fn get_winner(&self) -> (r: Option<Self::SnakeIDType>)
        ensures
            r == self.spec_winner(),
            !self.spec_is_over() ==> r is None,
    ;
}

/// a game for which future states can be simulated
pub trait SimulableGame<T: SimulatorInstruments>: Sized {
    #[allow(missing_docs)]
    type SnakeIDType;

    /// simulates all possible future games for a given game, giving every
    /// requested identity the full four-move candidate set; returns the snake
    /// ids and moves that got to a given state, plus that state
    fn simulate(&self, instruments: &T, snake_ids: Vec<Self::SnakeIDType>) -> (results: Vec<
        (Vec<(Self::SnakeIDType, Move)>, Self),
    >)
        ensures
            result_tags(results@) == joint_combinations(full_candidates(snake_ids@)),
    {
        let mut remaining = snake_ids;
        let mut build: Vec<(Self::SnakeIDType, Vec<Move>)> = Vec::new();
        proof {
            assert(snake_ids@.take(0) =~= Seq::<Self::SnakeIDType>::empty());
            assert(candidate_view(build@) =~= full_candidates(snake_ids@.take(0)));
            assert(remaining@ =~= snake_ids@.skip(0));
        }
        while remaining.len() > 0
            invariant
                build@.len() + remaining@.len() == snake_ids@.len(),
                remaining@ == snake_ids@.skip(build@.len() as int),
                candidate_view(build@) == full_candidates(snake_ids@.take(build@.len() as int)),
            decreases remaining@.len(),
        {
            let ghost k: int = build@.len() as int;
            let ghost old_build = build@;
            let id = remaining.remove(0);
            let moves_to_simulate = Move::all();
            build.push((id, moves_to_simulate));
            proof {
                assert(id == snake_ids@[k]);
                assert(remaining@ =~= snake_ids@.skip(k + 1));
                assert(build@ == old_build.push((id, moves_to_simulate)));
                assert forall|j: int| 0 <= j < build@.len() implies #[trigger] candidate_view(
                    build@,
                )[j] == full_candidates(snake_ids@.take(k + 1))[j] by {
                    assert(snake_ids@.take(k + 1)[j] == snake_ids@[j]);
                    if j < k {
                        assert(candidate_view(old_build)[j] == full_candidates(
                            snake_ids@.take(k),
                        )[j]);
                        assert(build@[j] == old_build[j]);
                        assert(snake_ids@.take(k)[j] == snake_ids@[j]);
                    } else {
                        assert(build@[j] == (id, moves_to_simulate));
                    }
                }
                assert(candidate_view(build@) =~= full_candidates(snake_ids@.take(k + 1)));
            }
        }
        proof {
            assert(snake_ids@.take(snake_ids@.len() as int) =~= snake_ids@);
        }
        self.simulate_with_moves(instruments, build)
    }

    /// simulates the next possible states for a game with a given set of
    /// snakes and candidate moves, producing a list of the new games along
    /// with the joint move choice that got to each position: one successor
    /// entry for every element of the Cartesian product of the candidate
    /// sets, in canonical order. Resolving each joint choice into a board
    /// state is entirely the implementer's responsibility.
    fn simulate_with_moves(
        &self,
        instruments: &T,
        snake_ids_and_moves: Vec<(Self::SnakeIDType, Vec<Move>)>,
    ) -> (results: Vec<(Vec<(Self::SnakeIDType, Move)>, Self)>)
        ensures
            result_tags(results@) == joint_combinations(candidate_view(snake_ids_and_moves@)),
    ;
}

/// a game for which a random reasonable move (e.g. one that does not collide
/// with the participant's own body) can be determined for each live
/// participant. This is a heuristic whose quality is entirely owned by the
/// board implementation; it is not a legality or safety guarantee, so no more
/// is promised of its result.
pub trait RandomReasonableMovesGame {
    #[allow(missing_docs)]
    type SnakeIDType;

    #[allow(missing_docs)]
    fn random_reasonable_move_for_each_snake(&self) -> Vec<(Self::SnakeIDType, Move)>;
}

fn copy_tags<ID: Copy>(src: &Vec<(ID, Move)>) -> (r: Vec<(ID, Move)>)
    ensures
        r@ == src@,
{
    let mut r: Vec<(ID, Move)> = Vec::new();
    let mut t: usize = 0;
    while t < src.len()
        invariant
            t <= src@.len(),
            r@ == src@.take(t as int),
        decreases src@.len() - t,
    {
        let e = src[t];
        r.push(e);
        proof {
            assert(src@.take(t as int + 1) =~= src@.take(t as int).push(src@[t as int]));
        }
        t = t + 1;
    }
    proof {
        assert(src@.take(src@.len() as int) =~= src@);
    }
    r
}

proof fn lemma_expand_combos_take_append<ID>(
    front: Seq<Seq<(ID, Move)>>,
    id: ID,
    ms: Seq<Move>,
    a: int,
)
    requires
        0 <= a < front.len(),
    ensures
        expand_combos(front.take(a + 1), id, ms) == expand_combos(front.take(a), id, ms)
            + extended_combos(front[a], id, ms),
{
    front.lemma_flat_map_take_append(|c: Seq<(ID, Move)>| extended_combos(c, id, ms), a);
}

/// Exhaustively enumerates the joint move choices of a simulation request:
/// one tag list for every way of choosing, for each (identity, candidate
/// move set) pair in order, one move from that pair's candidate set. This is
/// the combinatorial primitive a board implementation can build its
/// `simulate_with_moves` on: it resolves each returned tag list into one
/// successor state.
#[verifier::loop_isolation(false)]
pub fn joint_move_combinations<ID: Copy>(pairs: &Vec<(ID, Vec<Move>)>) -> (r: Vec<
    Vec<(ID, Move)>,
>)
    ensures
        combos_view(r@) == joint_combinations(candidate_view(pairs@)),
{
    let ghost cpairs: Seq<(ID, Seq<Move>)> = candidate_view(pairs@);
    let mut acc: Vec<Vec<(ID, Move)>> = Vec::new();
    let empty_combo: Vec<(ID, Move)> = Vec::new();
    acc.push(empty_combo);
    proof {
        assert(cpairs.take(0) =~= Seq::<(ID, Seq<Move>)>::empty());
        assert(combos_view(acc@) =~= joint_combinations(cpairs.take(0)));
    }
    let mut k: usize = 0;
    while k < pairs.len()
        invariant
            k <= pairs@.len(),
            combos_view(acc@) == joint_combinations(cpairs.take(k as int)),
        decreases pairs@.len() - k,
    {
        let pair = &pairs[k];
        let ghost front = combos_view(acc@);
        let ghost id_g: ID = pairs@[k as int].0;
        let ghost ms_g: Seq<Move> = pairs@[k as int].1@;
        let mut next: Vec<Vec<(ID, Move)>> = Vec::new();
        proof {
            assert(front.take(0) =~= Seq::<Seq<(ID, Move)>>::empty());
            assert(front.take(0).map_values(
                |c: Seq<(ID, Move)>| extended_combos(c, id_g, ms_g),
            ) =~= Seq::<Seq<Seq<(ID, Move)>>>::empty());
            assert(expand_combos(front.take(0), id_g, ms_g) =~= Seq::<Seq<(ID, Move)>>::empty());
            assert(combos_view(next@) =~= expand_combos(front.take(0), id_g, ms_g));
        }
        let mut a: usize = 0;
        while a < acc.len()
            invariant
                a <= acc@.len(),
                combos_view(next@) == expand_combos(front.take(a as int), id_g, ms_g),
            decreases acc@.len() - a,
        {
            let combo = &acc[a];
            let mut b: usize = 0;
            proof {
                assert(ms_g.take(0).map_values(|m: Move| combo@.push((id_g, m))) =~= Seq::<
                    Seq<(ID, Move)>,
                >::empty());
                assert(extended_combos(combo@, id_g, ms_g).take(0) =~= Seq::<
                    Seq<(ID, Move)>,
                >::empty());
            }
            while b < pair.1.len()
                invariant
                    b <= ms_g.len(),
                    combos_view(next@) == expand_combos(front.take(a as int), id_g, ms_g)
                        + extended_combos(combo@, id_g, ms_g).take(b as int),
                decreases ms_g.len() - b,
            {
                let ghost old_next = next@;
                let mut c = copy_tags(combo);
                c.push((pair.0, pair.1[b]));
                let ghost cv = c@;
                next.push(c);
                proof {
                    let ext = extended_combos(combo@, id_g, ms_g);
                    let exp = expand_combos(front.take(a as int), id_g, ms_g);
                    assert(cv == combo@.push((id_g, ms_g[b as int])));
                    assert(ext[b as int] == combo@.push((id_g, ms_g[b as int])));
                    assert(ext.take(b as int + 1) =~= ext.take(b as int).push(ext[b as int]));
                    assert(combos_view(next@) =~= combos_view(old_next).push(cv));
                    assert((exp + ext.take(b as int)).push(ext[b as int]) =~= exp + ext.take(
                        b as int + 1,
                    ));
                    assert(combos_view(next@) == exp + ext.take(b as int + 1));
                }
                b = b + 1;
            }
            proof {
                assert(extended_combos(combo@, id_g, ms_g).take(ms_g.len() as int)
                    =~= extended_combos(combo@, id_g, ms_g));
                assert(combo@ == front[a as int]);
                lemma_expand_combos_take_append(front, id_g, ms_g, a as int);
            }
            a = a + 1;
        }
        proof {
            assert(front.take(acc@.len() as int) =~= front);
            assert(cpairs.take(k as int + 1).drop_last() =~= cpairs.take(k as int));
            assert(cpairs.take(k as int + 1).last() == cpairs[k as int]);
            assert(combos_view(next@) == joint_combinations(cpairs.take(k as int + 1)));
        }
        acc = next;
        k = k + 1;
    }
    proof {
        assert(cpairs.take(cpairs.len() as int) =~= cpairs);
    }
    acc
}

proof fn lemma_expand_combos_len<ID>(front: Seq<Seq<(ID, Move)>>, id: ID, ms: Seq<Move>)
    ensures
        expand_combos(front, id, ms).len() == front.len() * ms.len(),
    decreases front.len(),
{
    if front.len() == 0 {
        assert(front.map_values(|c: Seq<(ID, Move)>| extended_combos(c, id, ms)) =~= Seq::<
            Seq<Seq<(ID, Move)>>,
        >::empty());
        assert(expand_combos(front, id, ms) =~= Seq::<Seq<(ID, Move)>>::empty());
    } else {
        let fdl = front.drop_last();
        lemma_expand_combos_len(fdl, id, ms);
        assert(front =~= fdl.push(front.last()));
        fdl.lemma_flat_map_push(
            |c: Seq<(ID, Move)>| extended_combos(c, id, ms),
            front.last(),
        );
        assert((front.len() - 1) * ms.len() + ms.len() == front.len() * ms.len())
            by (nonlinear_arith);
    }
}

proof fn lemma_expand_combos_index<ID>(
    front: Seq<Seq<(ID, Move)>>,
    id: ID,
    ms: Seq<Move>,
    a: int,
    b: int,
)
    requires
        0 <= a < front.len(),
        0 <= b < ms.len(),
    ensures
        expand_combos(front, id, ms)[a * ms.len() + b] == front[a].push((id, ms[b])),
    decreases front.len(),
{
    let l = ms.len() as int;
    let fdl = front.drop_last();
    lemma_expand_combos_len(fdl, id, ms);
    assert(front =~= fdl.push(front.last()));
    fdl.lemma_flat_map_push(|c: Seq<(ID, Move)>| extended_combos(c, id, ms), front.last());
    if a < front.len() - 1 {
        lemma_expand_combos_index(fdl, id, ms, a, b);
        assert(a * l + b < (front.len() - 1) * l) by (nonlinear_arith)
            requires
                0 <= a,
                a + 1 <= front.len() - 1,
                0 <= b < l,
        ;
        assert(expand_combos(front, id, ms)[a * l + b] == expand_combos(fdl, id, ms)[a * l + b]);
        assert(fdl[a] == front[a]);
    } else {
        assert(a == front.len() - 1);
        assert(a * l + b - (front.len() - 1) * l == b);
        assert(expand_combos(front, id, ms)[a * l + b] == extended_combos(
            front.last(),
            id,
            ms,
        )[b]);
        assert(extended_combos(front.last(), id, ms)[b] == front.last().push((id, ms[b])));
    }
}

/// Law: the number of joint combinations of a simulation request is exactly
/// the product of the sizes of the per-identity candidate move sets.
pub proof fn lemma_joint_combinations_len<ID>(pairs: Seq<(ID, Seq<Move>)>)
    ensures
        joint_combinations(pairs).len() == candidate_count(pairs),
    decreases pairs.len(),
{
    if pairs.len() > 0 {
        lemma_joint_combinations_len(pairs.drop_last());
        lemma_expand_combos_len(
            joint_combinations(pairs.drop_last()),
            pairs.last().0,
            pairs.last().1,
        );
    }
}

/// Law: every joint combination chooses, for each requested identity in
/// order, exactly one move out of that identity's candidate set.
pub proof fn lemma_joint_combinations_sound<ID>(pairs: Seq<(ID, Seq<Move>)>, idx: int)
    requires
        0 <= idx < joint_combinations(pairs).len(),
    ensures
        joint_combinations(pairs)[idx].len() == pairs.len(),
        forall|i: int|
            0 <= i < pairs.len() ==> (#[trigger] joint_combinations(pairs)[idx][i]).0 == pairs[i].0
                && pairs[i].1.contains(joint_combinations(pairs)[idx][i].1),
    decreases pairs.len(),
{
    if pairs.len() == 0 {
        assert(joint_combinations(pairs)[idx] =~= Seq::<(ID, Move)>::empty());
    } else {
        let front = joint_combinations(pairs.drop_last());
        let id = pairs.last().0;
        let ms = pairs.last().1;
        let l = ms.len() as int;
        lemma_expand_combos_len(front, id, ms);
        assert(l > 0) by {
            if l <= 0 {
                assert(front.len() * 0 == 0) by (nonlinear_arith);
            }
        }
        let a = idx / l;
        let b = idx % l;
        vstd::arithmetic::div_mod::lemma_fundamental_div_mod(idx, l);
        vstd::arithmetic::div_mod::lemma_mod_bound(idx, l);
        assert(0 <= a && a < front.len()) by (nonlinear_arith)
            requires
                idx == l * a + b,
                0 <= b < l,
                0 <= idx,
                idx < front.len() * l,
        ;
        lemma_expand_combos_index(front, id, ms, a, b);
        assert(joint_combinations(pairs)[idx] == front[a].push((id, ms[b])));
        lemma_joint_combinations_sound(pairs.drop_last(), a);
        let t = joint_combinations(pairs)[idx];
        assert forall|i: int|
            0 <= i < pairs.len() implies (#[trigger] t[i]).0 == pairs[i].0 && pairs[i].1.contains(
            t[i].1,
        ) by {
            if i < pairs.len() - 1 {
                assert(t[i] == front[a][i]);
                assert(pairs.drop_last()[i] == pairs[i]);
            } else {
                assert(t[i] == (id, ms[b]));
                assert(ms[b] == t[i].1 && 0 <= b < ms.len());
            }
        }
    }
}

/// Law: every way of choosing one candidate move per requested identity, in
/// order, appears among the joint combinations.
pub proof fn lemma_joint_combinations_complete<ID>(pairs: Seq<(ID, Seq<Move>)>, t: Seq<(ID, Move)>)
    requires
        t.len() == pairs.len(),
        forall|i: int|
            0 <= i < pairs.len() ==> (#[trigger] t[i]).0 == pairs[i].0 && pairs[i].1.contains(
                t[i].1,
            ),
    ensures
        joint_combinations(pairs).contains(t),
    decreases pairs.len(),
{
    if pairs.len() == 0 {
        assert(t =~= Seq::<(ID, Move)>::empty());
        assert(joint_combinations(pairs)[0] == t);
    } else {
        let front = joint_combinations(pairs.drop_last());
        let id = pairs.last().0;
        let ms = pairs.last().1;
        let l = ms.len() as int;
        let td = t.drop_last();
        assert forall|i: int|
            0 <= i < pairs.drop_last().len() implies (#[trigger] td[i]).0
                == pairs.drop_last()[i].0 && pairs.drop_last()[i].1.contains(td[i].1) by {
            assert(td[i] == t[i]);
            assert(pairs.drop_last()[i] == pairs[i]);
        }
        lemma_joint_combinations_complete(pairs.drop_last(), td);
        let a = choose|a: int| 0 <= a < front.len() && front[a] == td;
        assert(t[pairs.len() - 1].0 == id);
        assert(ms.contains(t.last().1));
        let b = choose|b: int| 0 <= b < ms.len() && ms[b] == t.last().1;
        lemma_expand_combos_index(front, id, ms, a, b);
        assert(front[a].push((id, ms[b])) =~= t);
        lemma_expand_combos_len(front, id, ms);
        assert(0 <= a * l + b < front.len() * l) by (nonlinear_arith)
            requires
                0 <= a < front.len(),
                0 <= b < l,
        ;
        assert(joint_combinations(pairs)[a * l + b] == t);
    }
}

proof fn lemma_expand_combos_entry_distinct<ID>(
    front: Seq<Seq<(ID, Move)>>,
    id: ID,
    ms: Seq<Move>,
    x: int,
    y: int,
)
    requires
        front.no_duplicates(),
        ms.no_duplicates(),
        0 <= x < expand_combos(front, id, ms).len(),
        0 <= y < expand_combos(front, id, ms).len(),
        x != y,
    ensures
        expand_combos(front, id, ms)[x] != expand_combos(front, id, ms)[y],
{
    let exp = expand_combos(front, id, ms);
    lemma_expand_combos_len(front, id, ms);
    let l = ms.len() as int;
    assert(l > 0) by {
        if l <= 0 {
            assert(front.len() * 0 == 0) by (nonlinear_arith);
        }
    }
    vstd::arithmetic::div_mod::lemma_fundamental_div_mod(x, l);
    vstd::arithmetic::div_mod::lemma_mod_bound(x, l);
    vstd::arithmetic::div_mod::lemma_fundamental_div_mod(y, l);
    vstd::arithmetic::div_mod::lemma_mod_bound(y, l);
    let ax = x / l;
    let bx = x % l;
    let ay = y / l;
    let by_ = y % l;
    assert(0 <= ax && ax < front.len()) by (nonlinear_arith)
        requires
            x == l * ax + bx,
            0 <= bx < l,
            0 <= x,
            x < front.len() * l,
    ;
    assert(0 <= ay && ay < front.len()) by (nonlinear_arith)
        requires
            y == l * ay + by_,
            0 <= by_ < l,
            0 <= y,
            y < front.len() * l,
    ;
    lemma_expand_combos_index(front, id, ms, ax, bx);
    lemma_expand_combos_index(front, id, ms, ay, by_);
    let ex = front[ax].push((id, ms[bx]));
    let ey = front[ay].push((id, ms[by_]));
    assert(exp[x] == ex);
    assert(exp[y] == ey);
    assert(ex.last() == (id, ms[bx]));
    assert(ey.last() == (id, ms[by_]));
    assert(ex.drop_last() =~= front[ax]);
    assert(ey.drop_last() =~= front[ay]);
    assert(ax != ay || bx != by_);
    if ax == ay {
        assert(ms[bx] != ms[by_]);
        assert(ex != ey) by {
            if ex == ey {
                assert(ex.last() == ey.last());
            }
        }
    } else {
        assert(front[ax] != front[ay]);
        assert(ex != ey) by {
            if ex == ey {
                assert(ex.drop_last() == ey.drop_last());
            }
        }
    }
}

/// Law: when no candidate move set repeats a move, no joint combination
/// repeats either: each choice of moves appears at most once.
pub proof fn lemma_joint_combinations_distinct<ID>(pairs: Seq<(ID, Seq<Move>)>)
    requires
        forall|i: int| 0 <= i < pairs.len() ==> (#[trigger] pairs[i]).1.no_duplicates(),
    ensures
        joint_combinations(pairs).no_duplicates(),
    decreases pairs.len(),
{
    if pairs.len() > 0 {
        let front = joint_combinations(pairs.drop_last());
        let id = pairs.last().0;
        let ms = pairs.last().1;
        assert forall|i: int|
            0 <= i < pairs.drop_last().len() implies (#[trigger] pairs.drop_last()[
            i]).1.no_duplicates() by {
            assert(pairs.drop_last()[i] == pairs[i]);
        }
        lemma_joint_combinations_distinct(pairs.drop_last());
        assert(pairs[pairs.len() - 1] == pairs.last());
        let combos = joint_combinations(pairs);
        assert(combos == expand_combos(front, id, ms));
        assert forall|x: int, y: int|
            0 <= x < combos.len() && 0 <= y < combos.len() && x != y implies combos[x] != combos[y]
            by {
            lemma_expand_combos_entry_distinct(front, id, ms, x, y);
        }
    }
}

proof fn lemma_full_candidate_count<ID>(ids: Seq<ID>)
    ensures
        candidate_count(full_candidates(ids)) == four_to_the(ids.len()),
    decreases ids.len(),
{
    if ids.len() == 0 {
        assert(full_candidates(ids) =~= Seq::<(ID, Seq<Move>)>::empty());
    } else {
        lemma_full_candidate_count(ids.drop_last());
        assert(full_candidates(ids).drop_last() =~= full_candidates(ids.drop_last()));
        assert(full_candidates(ids).last().1 == Move::all_moves());
        assert(Move::all_moves().len() == 4);
        assert(candidate_count(full_candidates(ids)) == candidate_count(
            full_candidates(ids).drop_last(),
        ) * full_candidates(ids).last().1.len());
        assert(candidate_count(full_candidates(ids)) == four_to_the(ids.drop_last().len()) * 4);
        assert(four_to_the(ids.len()) == 4 * four_to_the((ids.len() - 1) as nat));
    }
}

/// Law: joint-move simulation over the identities of `ids`, each given the
/// full four-move candidate set, has exactly four-to-the-k joint combinations
/// for k identities; no combination repeats, and the combinations are exactly
/// the assignments of one move to each requested identity in order — the full
/// Cartesian product, covered exactly once.
pub proof fn lemma_full_simulation_shape<ID>(ids: Seq<ID>)
    ensures
        joint_combinations(full_candidates(ids)).len() == four_to_the(ids.len()),
        joint_combinations(full_candidates(ids)).no_duplicates(),
        forall|t: Seq<(ID, Move)>|
            #[trigger] joint_combinations(full_candidates(ids)).contains(t) <==> (t.len()
                == ids.len() && forall|i: int| 0 <= i < ids.len() ==> (#[trigger] t[i]).0 == ids[i]),
{
    let pairs = full_candidates(ids);
    let combos = joint_combinations(pairs);
    crate::moves::lemma_all_moves_exhaustive();
    lemma_joint_combinations_len(pairs);
    lemma_full_candidate_count(ids);
    assert forall|i: int| 0 <= i < pairs.len() implies (#[trigger] pairs[i]).1.no_duplicates() by {
        assert(pairs[i].1 == Move::all_moves());
    }
    lemma_joint_combinations_distinct(pairs);
    assert forall|t: Seq<(ID, Move)>| #[trigger] combos.contains(t) implies (t.len() == ids.len()
        && forall|i: int| 0 <= i < ids.len() ==> (#[trigger] t[i]).0 == ids[i]) by {
        let idx = choose|idx: int| 0 <= idx < combos.len() && combos[idx] == t;
        lemma_joint_combinations_sound(pairs, idx);
    }
    assert forall|t: Seq<(ID, Move)>|
        t.len() == ids.len() && (forall|i: int|
            0 <= i < ids.len() ==> (#[trigger] t[i]).0 == ids[i]) implies #[trigger] combos.contains(
        t,
    ) by {
        assert forall|i: int|
            0 <= i < pairs.len() implies (#[trigger] t[i]).0 == pairs[i].0 && pairs[i].1.contains(
            t[i].1,
        ) by {
            assert(Move::all_moves().contains(t[i].1));
        }
        lemma_joint_combinations_complete(pairs, t);
    }
}

} // verus!
