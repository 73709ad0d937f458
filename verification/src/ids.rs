//! Assignment of stable, dense integer identities to the participants of one
//! game. The controlling participant always receives identity 0; every other
//! participant receives the next free identity in roster order. The map is
//! built once at game start and treated as immutable for the game's duration.

use vstd::prelude::*;

verus! {

/// token to represent a snake id: a dense small integer, stable for the
/// whole game
#[derive(Debug, Copy, Clone, PartialEq, Eq, Hash, Structural)]
pub struct SnakeId(pub u8);

/// The part of a game-start snapshot that identity assignment reads: the
/// controlling participant's external identifier and the full roster of
/// participants' external identifiers, in the host's iteration order. The
/// roster is expected to contain the controlling participant.
pub struct GameSnapshot {
    /// the controlling participant's external identifier
    pub you_id: String,
    /// external identifiers of every participant, including the controlling one
    pub roster: Vec<String>,
}

/// The map denoted by a sequence of (identifier, identity) entries, a later
/// entry for a key overriding an earlier one.
pub open spec fn id_map_of(entries: Seq<(String, SnakeId)>) -> Map<Seq<char>, SnakeId>
    decreases entries.len(),
{
    if entries.len() == 0 {
        Map::empty()
    } else {
        id_map_of(entries.drop_last()).insert(entries.last().0@, entries.last().1)
    }
}

/// Represents the snake IDs for a given game, keyed by the external
/// identifiers the host supplied. This should be established once at game
/// start and then stored, so that `SnakeId`s are stable throughout the game.
pub struct SnakeIDMap {
    entries: Vec<(String, SnakeId)>,
}

impl View for SnakeIDMap {
    type V = Map<Seq<char>, SnakeId>;

    closed spec fn view(&self) -> Map<Seq<char>, SnakeId> {
        id_map_of(self.entries@)
    }
}

impl SnakeIDMap {
    /// looks up the identity assigned to an external identifier
    pub fn get(&self, external_id: &String) -> (r: Option<SnakeId>)
        ensures
            r == (if self@.contains_key(external_id@) {
                Some(self@[external_id@])
            } else {
                None::<SnakeId>
            }),
    {
        let mut i: usize = self.entries.len();
        while i > 0
            invariant
                i <= self.entries@.len(),
                forall|j: int|
                    i <= j < self.entries@.len() ==> (#[trigger] self.entries@[j]).0@
                        != external_id@,
            decreases i,
        {
            i = i - 1;
            let entry = &self.entries[i];
            if entry.0 == *external_id {
                proof {
                    lemma_id_map_of_found(self.entries@, i as int);
                }
                return Some(entry.1);
            }
        }
        proof {
            lemma_id_map_of_absent(self.entries@, external_id@);
        }
        None
    }
}

proof fn lemma_id_map_of_found(entries: Seq<(String, SnakeId)>, i: int)
    requires
        0 <= i < entries.len(),
        forall|j: int| i < j < entries.len() ==> (#[trigger] entries[j]).0@ != entries[i].0@,
    ensures
        id_map_of(entries).contains_key(entries[i].0@),
        id_map_of(entries)[entries[i].0@] == entries[i].1,
    decreases entries.len(),
{
    if i < entries.len() - 1 {
        lemma_id_map_of_found(entries.drop_last(), i);
    }
}

proof fn lemma_id_map_of_absent(entries: Seq<(String, SnakeId)>, key: Seq<char>)
    requires
        forall|j: int| 0 <= j < entries.len() ==> (#[trigger] entries[j]).0@ != key,
    ensures
        !id_map_of(entries).contains_key(key),
    decreases entries.len(),
{
    if entries.len() > 0 {
        lemma_id_map_of_absent(entries.drop_last(), key);
    }
}

/// How many identifiers of `roster` differ from `you`: the number of
/// identities handed out after identity 0.
pub open spec fn non_you_count(you: Seq<char>, roster: Seq<Seq<char>>) -> nat
    decreases roster.len(),
{
    if roster.len() == 0 {
        0
    } else {
        non_you_count(you, roster.drop_last()) + (if roster.last() == you {
            0nat
        } else {
            1nat
        })
    }
}

/// The identity assignment for a roster: the controlling identifier `you`
/// maps to identity 0, and every other identifier of `roster`, in roster
/// order, maps to the next free identity, starting at 1.
pub open spec fn spec_snake_id_map(you: Seq<char>, roster: Seq<Seq<char>>) -> Map<Seq<char>, SnakeId>
    decreases roster.len(),
{
    if roster.len() == 0 {
        Map::empty().insert(you, SnakeId(0))
    } else if roster.last() == you {
        spec_snake_id_map(you, roster.drop_last())
    } else {
        spec_snake_id_map(you, roster.drop_last()).insert(
            roster.last(),
            SnakeId((1 + non_you_count(you, roster.drop_last())) as u8),
        )
    }
}

/// The roster identifiers as spec-level character sequences.
pub open spec fn roster_view(roster: Seq<String>) -> Seq<Seq<char>> {
    roster.map_values(|s: String| s@)
}

proof fn lemma_non_you_count_le_len(you: Seq<char>, roster: Seq<Seq<char>>)
    ensures
        non_you_count(you, roster) <= roster.len(),
    decreases roster.len(),
{
    if roster.len() > 0 {
        lemma_non_you_count_le_len(you, roster.drop_last());
    }
}

proof fn lemma_non_you_count_lt_len(you: Seq<char>, roster: Seq<Seq<char>>)
    requires
        roster.contains(you),
    ensures
        non_you_count(you, roster) < roster.len(),
    decreases roster.len(),
{
    if roster.last() == you {
        lemma_non_you_count_le_len(you, roster.drop_last());
    } else {
        let p = choose|p: int| 0 <= p < roster.len() && roster[p] == you;
        assert(roster.drop_last()[p] == you);
        assert(roster.drop_last().contains(you));
        lemma_non_you_count_lt_len(you, roster.drop_last());
    }
}

proof fn lemma_non_you_count_take_succ(you: Seq<char>, roster: Seq<Seq<char>>, k: int)
    requires
        0 <= k < roster.len(),
    ensures
        non_you_count(you, roster.take(k + 1)) == non_you_count(you, roster.take(k)) + (
        if roster[k] == you {
            0nat
        } else {
            1nat
        }),
{
    assert(roster.take(k + 1).drop_last() =~= roster.take(k));
    assert(roster.take(k + 1).last() == roster[k]);
}

proof fn lemma_non_you_count_take_mono(you: Seq<char>, roster: Seq<Seq<char>>, a: int, b: int)
    requires
        0 <= a <= b <= roster.len(),
    ensures
        non_you_count(you, roster.take(a)) <= non_you_count(you, roster.take(b)),
    decreases b - a,
{
    if a < b {
        lemma_non_you_count_take_succ(you, roster, a);
        lemma_non_you_count_take_mono(you, roster, a + 1, b);
    }
}

proof fn lemma_non_you_count_take_le(you: Seq<char>, roster: Seq<Seq<char>>, k: int)
    requires
        0 <= k <= roster.len(),
    ensures
        non_you_count(you, roster.take(k)) <= non_you_count(you, roster),
    decreases roster.len() - k,
{
    if k == roster.len() {
        assert(roster.take(k) =~= roster);
    } else {
        lemma_non_you_count_take_succ(you, roster, k);
        lemma_non_you_count_take_le(you, roster, k + 1);
    }
}

proof fn lemma_spec_snake_id_map_you(you: Seq<char>, roster: Seq<Seq<char>>)
    ensures
        spec_snake_id_map(you, roster).contains_key(you),
        spec_snake_id_map(you, roster)[you] == SnakeId(0),
    decreases roster.len(),
{
    if roster.len() > 0 {
        lemma_spec_snake_id_map_you(you, roster.drop_last());
    }
}

proof fn lemma_spec_snake_id_map_value(you: Seq<char>, roster: Seq<Seq<char>>, i: int)
    requires
        0 <= i < roster.len(),
        roster[i] != you,
        forall|j: int| i < j < roster.len() ==> roster[j] != roster[i],
    ensures
        spec_snake_id_map(you, roster).contains_key(roster[i]),
        spec_snake_id_map(you, roster)[roster[i]] == SnakeId(
            (1 + non_you_count(you, roster.take(i))) as u8,
        ),
    decreases roster.len(),
{
    if i == roster.len() - 1 {
        assert(roster.drop_last() =~= roster.take(i));
    } else {
        assert(roster.drop_last()[i] == roster[i]);
        lemma_spec_snake_id_map_value(you, roster.drop_last(), i);
        assert(roster.drop_last().take(i) =~= roster.take(i));
        assert(roster[roster.len() - 1] != roster[i]);
    }
}

proof fn lemma_spec_snake_id_map_dom(you: Seq<char>, roster: Seq<Seq<char>>)
    ensures
        forall|k: Seq<char>|
            #[trigger] spec_snake_id_map(you, roster).contains_key(k) ==> k == you
                || roster.contains(k),
    decreases roster.len(),
{
    if roster.len() > 0 {
        lemma_spec_snake_id_map_dom(you, roster.drop_last());
        assert forall|k: Seq<char>|
            #[trigger] spec_snake_id_map(you, roster).contains_key(k) implies k == you
            || roster.contains(k) by {
            if k != you {
                if roster.last() != you && k == roster.last() {
                    assert(roster[roster.len() - 1] == k);
                } else {
                    assert(spec_snake_id_map(you, roster.drop_last()).contains_key(k));
                    let j = choose|j: int|
                        0 <= j < roster.drop_last().len() && roster.drop_last()[j] == k;
                    assert(roster[j] == k);
                }
            }
        }
    }
}

/// Law: for a roster of pairwise-distinct identifiers that contains the
/// controlling identifier `you`, the identity assignment maps `you` to
/// identity 0 and every other roster identifier to an identity of at least 1,
/// strictly increasing in roster order (so all identities are distinct); no
/// identifier outside the roster is mapped.
pub proof fn lemma_identity_assignment(you: Seq<char>, roster: Seq<Seq<char>>)
    requires
        roster.contains(you),
        roster.len() <= 255,
        forall|i: int, j: int| 0 <= i < j < roster.len() ==> roster[i] != roster[j],
    ensures
        spec_snake_id_map(you, roster).contains_key(you),
        spec_snake_id_map(you, roster)[you] == SnakeId(0),
        forall|i: int|
            0 <= i < roster.len() && roster[i] != you ==> #[trigger] spec_snake_id_map(
                you,
                roster,
            ).contains_key(roster[i]) && 1 <= spec_snake_id_map(you, roster)[roster[i]].0,
        forall|i: int, j: int|
            0 <= i < j < roster.len() && roster[i] != you && roster[j] != you
                ==> spec_snake_id_map(you, roster)[#[trigger] roster[i]].0 < spec_snake_id_map(
                you,
                roster,
            )[#[trigger] roster[j]].0,
        forall|k: Seq<char>|
            #[trigger] spec_snake_id_map(you, roster).contains_key(k) ==> k == you
                || roster.contains(k),
{
    lemma_spec_snake_id_map_you(you, roster);
    lemma_spec_snake_id_map_dom(you, roster);
    lemma_non_you_count_lt_len(you, roster);
    assert forall|i: int| 0 <= i < roster.len() && roster[i] != you implies #[trigger]
        spec_snake_id_map(you, roster).contains_key(roster[i]) && 1 <= spec_snake_id_map(
        you,
        roster,
    )[roster[i]].0 by {
        lemma_spec_snake_id_map_value(you, roster, i);
        lemma_non_you_count_take_le(you, roster, i);
    }
    assert forall|i: int, j: int|
        0 <= i < j < roster.len() && roster[i] != you && roster[j] != you implies
        spec_snake_id_map(you, roster)[roster[i]].0 < spec_snake_id_map(you, roster)[roster[j]].0
        by {
        lemma_spec_snake_id_map_value(you, roster, i);
        lemma_spec_snake_id_map_value(you, roster, j);
        lemma_non_you_count_take_le(you, roster, i);
        lemma_non_you_count_take_le(you, roster, j);
        lemma_non_you_count_take_succ(you, roster, i);
        lemma_non_you_count_take_mono(you, roster, i + 1, j);
    }
}

/// builds a snake ID map for a given game snapshot, mapping participants to
/// integer identities. The controlling participant is always identity 0.
/// Instead of calling this on every snapshot you are given, call it once per
/// game at the start and store the result; that way the integer identity of
/// each participant is stable throughout the game.
pub fn build_snake_id_map(g: &GameSnapshot) -> (r: SnakeIDMap)
    requires
        roster_view(g.roster@).contains(g.you_id@),
        g.roster@.len() <= 255,
    ensures
        r@ == spec_snake_id_map(g.you_id@, roster_view(g.roster@)),
{
    let ghost you: Seq<char> = g.you_id@;
    let ghost rv: Seq<Seq<char>> = roster_view(g.roster@);
    let mut entries: Vec<(String, SnakeId)> = Vec::new();
    entries.push((g.you_id.clone(), SnakeId(0)));
    proof {
        assert(rv.take(0) =~= Seq::<Seq<char>>::empty());
        assert(entries@.drop_last() =~= Seq::<(String, SnakeId)>::empty());
        assert(id_map_of(entries@.drop_last()) == Map::<Seq<char>, SnakeId>::empty());
        assert(entries@.last().0@ == you);
        assert(id_map_of(entries@) =~= spec_snake_id_map(you, rv.take(0)));
    }
    let mut i: u8 = 1;
    let mut k: usize = 0;
    while k < g.roster.len()
        invariant
            k <= g.roster@.len(),
            you == g.you_id@,
            rv == roster_view(g.roster@),
            rv.len() == g.roster@.len(),
            rv.contains(you),
            rv.len() <= 255,
            i as nat == 1 + non_you_count(you, rv.take(k as int)),
            id_map_of(entries@) == spec_snake_id_map(you, rv.take(k as int)),
        decreases g.roster@.len() - k,
    {
        let sid = &g.roster[k];
        proof {
            assert(rv[k as int] == sid@);
            lemma_non_you_count_take_succ(you, rv, k as int);
            lemma_non_you_count_take_le(you, rv, k as int + 1);
            lemma_non_you_count_lt_len(you, rv);
        }
        if !(*sid == g.you_id) {
            let ghost old_entries = entries@;
            entries.push((sid.clone(), SnakeId(i)));
            proof {
                assert(entries@.drop_last() =~= old_entries);
                assert(id_map_of(entries@) == id_map_of(old_entries).insert(sid@, SnakeId(i)));
                assert(rv.take(k as int + 1).drop_last() =~= rv.take(k as int));
                assert(rv.take(k as int + 1).last() == rv[k as int]);
            }
            i = i + 1;
        } else {
            proof {
                assert(rv.take(k as int + 1).drop_last() =~= rv.take(k as int));
                assert(rv.take(k as int + 1).last() == rv[k as int]);
            }
        }
        k = k + 1;
    }
    proof {
        assert(rv.take(rv.len() as int) =~= rv);
    }
    SnakeIDMap { entries }
}

} // verus!
