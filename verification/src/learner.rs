//! Training-loop bookkeeping that does not touch the network: the seeded
//! example order, the wrap-around micro-batch window, and the provenance of
//! consumed samples (fresh this cycle, or how many cycles old).

use vstd::prelude::*;

use crate::rng::{advance, mix, Rng};

verus! {

/// `s` with the entries at `i` and `j` exchanged.
pub open spec fn seq_swap(s: Seq<usize>, i: int, j: int) -> Seq<usize> {
    s.update(i, s[j]).update(j, s[i])
}

/// The Fisher–Yates pass from position `i` down to 1: position `i` swaps
/// with `draw % (i + 1)`, each draw taken from the generator in `state`.
pub open spec fn shuffle_from(s: Seq<usize>, state: u64, i: nat) -> Seq<usize>
    decreases i,
{
    if i == 0 || i >= s.len() {
        s
    } else {
        let next = advance(state);
        let j = (mix(next) as usize) as int % (i + 1) as int;
        shuffle_from(seq_swap(s, i as int, j), next, (i - 1) as nat)
    }
}

/// The order `0..n` shuffled by a generator seeded with `seed`.
pub open spec fn shuffled_order(n: nat, seed: u64) -> Seq<usize> {
    let ident = Seq::new(n, |k: int| k as usize);
    if n <= 1 { ident } else { shuffle_from(ident, seed, (n - 1) as nat) }
}

proof fn lemma_swap_multiset(s: Seq<usize>, i: int, j: int)
    requires
        0 <= i < s.len(),
        0 <= j < s.len(),
    ensures
        seq_swap(s, i, j).to_multiset() =~= s.to_multiset(),
        seq_swap(s, i, j).len() == s.len(),
{
    broadcast use vstd::seq_lib::to_multiset_update, vstd::seq_lib::to_multiset_contains, vstd::multiset::group_multiset_axioms;

    let t = s.update(i, s[j]);
    assert(t[j] == s[j]);
    let m = s.to_multiset();
    assert(s.contains(s[i]));
    assert(s.contains(s[j]));
    let m1 = m.insert(s[j]).remove(s[i]);
    let m2 = m1.insert(s[i]).remove(s[j]);
    assert(t.to_multiset() == m1);
    assert(seq_swap(s, i, j).to_multiset() == m2);
    assert forall|x: usize| m2.count(x) == m.count(x) by {
        assert(m.count(s[i]) > 0);
        assert(m.count(s[j]) > 0);
    }
    assert(m2 =~= m);
}

/// The example order of one training pass: `0..n` shuffled exactly as a
/// Fisher–Yates pass over `n` examples with a generator seeded by `seed`
/// would shuffle them. Every index occurs exactly once.
pub fn shuffle_order(n: usize, seed: u64) -> (r: Vec<usize>)
    ensures
        r@ == shuffled_order(n as nat, seed),
        r@.len() == n,
        r@.to_multiset() =~= Seq::new(n as nat, |k: int| k as usize).to_multiset(),
        forall|k: int| 0 <= k < n ==> r@[k] < n,
{
    let ghost ident = Seq::new(n as nat, |k: int| k as usize);
    let mut v: Vec<usize> = Vec::new();
    let mut k: usize = 0;
    while k < n
        invariant
            k <= n,
            v@ =~= Seq::new(k as nat, |x: int| x as usize),
        decreases n - k,
    {
        v.push(k);
        k = k + 1;
    }
    assert(v@ =~= ident);
    if n <= 1 {
        return v;
    }
    let mut rng = Rng::new(seed);
    let mut i: usize = n - 1;
    while i >= 1
        invariant
            1 <= n,
            i < n,
            v@.len() == n,
            shuffle_from(v@, rng.state(), i as nat) == shuffle_from(ident, seed, (n - 1) as nat),
            v@.to_multiset() =~= ident.to_multiset(),
            forall|x: int| 0 <= x < n ==> v@[x] < n,
        decreases i,
    {
        let draw = rng.next_u64();
        let j: usize = (draw as usize) % (i + 1);
        let a = v[i];
        let b = v[j];
        proof {
            lemma_swap_multiset(v@, i as int, j as int);
        }
        let ghost before = v@;
        v.set(i, b);
        v.set(j, a);
        assert(v@ =~= seq_swap(before, i as int, j as int));
        i = i - 1;
    }
    v
}

/// The window `[start, end)` of the next micro-batch over `len` examples:
/// it restarts at 0 when fewer than `batch_size` examples remain after
/// `cursor`, and is cut short at `len`.
pub fn next_window(cursor: usize, batch_size: usize, len: usize) -> (r: (usize, usize))
    requires
        cursor <= len,
    ensures
        r.0 == (if cursor + batch_size > len { 0 } else { cursor }),
        r.1 == (if r.0 + batch_size < len { r.0 + batch_size } else { len as int }),
        r.0 <= r.1 <= len,
{
    let start = if batch_size > len - cursor { 0 } else { cursor };
    let end = if batch_size < len - start { start + batch_size } else { len };
    (start, end)
}

/// How old a consumed sample is relative to the current cycle.
#[derive(Debug, Clone, Copy, PartialEq, Eq, Structural)]
pub enum SampleAge {
    /// Generated in the current cycle.
    Fresh,
    /// Generated this many cycles ago (at least 1).
    Cycles(u64),
    /// Older than the current cycle, but the cycle length is unknown.
    Unknown,
}

/// The age of a sample from game `source_game_id`, when the current cycle's
/// first game is `first_game_id` and cycles hold `games_per_cycle` games.
/// Game ids are contiguous per cycle, so ids from `first_game_id` on are fresh.
pub open spec fn sample_age_spec(first_game_id: u64, source_game_id: u64, games_per_cycle: u64) -> SampleAge {
    if source_game_id >= first_game_id {
        SampleAge::Fresh
    } else if games_per_cycle == 0 {
        SampleAge::Unknown
    } else {
        SampleAge::Cycles(((first_game_id - source_game_id - 1) / games_per_cycle as int + 1) as u64)
    }
}

/// The age of a sample (see [`sample_age_spec`]).
pub fn sample_age(first_game_id: u64, source_game_id: u64, games_per_cycle: u64) -> (r: SampleAge)
    ensures
        r == sample_age_spec(first_game_id, source_game_id, games_per_cycle),
{
    if source_game_id >= first_game_id {
        SampleAge::Fresh
    } else if games_per_cycle == 0 {
        SampleAge::Unknown
    } else {
        let gap = first_game_id - source_game_id - 1;
        assert(gap / games_per_cycle <= gap) by (nonlinear_arith)
            requires
                games_per_cycle > 0,
        ;
        SampleAge::Cycles(gap / games_per_cycle + 1)
    }
}

/// Provenance of the samples a training segment consumed.
#[derive(Debug, Clone, Copy, PartialEq, Eq, Structural)]
pub struct SampleProvenance {
    /// Samples consumed.
    pub consumed: u64,
    /// Samples generated in the current cycle.
    pub fresh: u64,
    /// Sum of the ages, in cycles, of the older samples whose age is known.
    pub age_sum: u128,
}

impl SampleProvenance {
    /// Nothing consumed yet.
    pub fn new() -> (p: Self)
        ensures
            p == (SampleProvenance { consumed: 0, fresh: 0, age_sum: 0 }),
    {
        SampleProvenance { consumed: 0, fresh: 0, age_sum: 0 }
    }

    /// Count one consumed sample from game `source_game_id`. Without a
    /// current-cycle boundary only the consumption is counted.
    pub fn record(&mut self, first_game_id: Option<u64>, source_game_id: u64, games_per_cycle: u64)
        requires
            old(self).consumed < u64::MAX,
            old(self).age_sum <= u128::MAX - u64::MAX,
            old(self).fresh <= old(self).consumed,
        ensures
            final(self).consumed == old(self).consumed + 1,
            final(self).fresh <= final(self).consumed,
            final(self).fresh == old(self).fresh + (match first_game_id {
                Some(f) => if sample_age_spec(f, source_game_id, games_per_cycle) is Fresh { 1int } else { 0 },
                None => 0,
            }),
            final(self).age_sum == old(self).age_sum + (match first_game_id {
                Some(f) => match sample_age_spec(f, source_game_id, games_per_cycle) {
                    SampleAge::Cycles(a) => a as int,
                    _ => 0,
                },
                None => 0,
            }),
    {
        self.consumed = self.consumed + 1;
        if let Some(first) = first_game_id {
            match sample_age(first, source_game_id, games_per_cycle) {
                SampleAge::Fresh => {
                    self.fresh = self.fresh + 1;
                },
                SampleAge::Cycles(a) => {
                    self.age_sum = self.age_sum + a as u128;
                },
                SampleAge::Unknown => {},
            }
        }
    }
}

} // verus!
