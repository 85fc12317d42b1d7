//! Replay store index and the recency-weighted sampler.
//!
//! The store keeps the compact game records and an index of sampleable
//! coordinates `(game, ply)` per shard, for result games only (truncated and
//! aborted games carry no WDL supervision). Each draw picks a shard with
//! weight `shard index + 1`, so newer shards are favored, then a coordinate
//! uniformly within it. Examples are reconstructed from a coordinate by
//! replaying the game to that ply.

use vstd::prelude::*;

use crate::replay::schema::GameRecord;
use crate::rng::{advance, mix, Rng};
use crate::rules::Color;

verus! {

/// WDL class from the side-to-move perspective: 0 win, 1 draw, 2 loss.
pub open spec fn wdl_class_spec(outcome: u8, side: Color) -> i64 {
    if outcome == 0 {
        if side == Color::White { 0 } else { 2 }
    } else if outcome == 2 {
        if side == Color::Black { 0 } else { 2 }
    } else {
        1
    }
}

/// WDL class from the side-to-move perspective.
pub fn wdl_class(outcome: u8, side: Color) -> (r: i64)
    ensures
        r == wdl_class_spec(outcome, side),
{
    match outcome {
        1 => 1,
        0 => if side == Color::White { 0 } else { 2 },
        2 => if side == Color::Black { 0 } else { 2 },
        _ => 1,
    }
}

/// Number of shards the indexed games span: one past the largest shard
/// index, or 0 without games.
pub open spec fn shard_span(games: Seq<(usize, GameRecord)>) -> nat
    decreases games.len(),
{
    if games.len() == 0 {
        0
    } else {
        let rest = shard_span(games.drop_last());
        let here = games.last().0 as nat + 1;
        if here > rest { here } else { rest }
    }
}

/// The sampleable coordinates of shard `s`, in game then ply order.
pub open spec fn shard_coords(games: Seq<(usize, GameRecord)>, s: nat) -> Seq<(usize, usize)>
    decreases games.len(),
{
    if games.len() == 0 {
        Seq::empty()
    } else {
        let rest = shard_coords(games.drop_last(), s);
        let gi = games.len() - 1;
        let g = games.last();
        if g.0 == s && g.1.outcome is Some {
            rest + Seq::new(g.1.plies@.len(), |pi: int| (gi as usize, pi as usize))
        } else {
            rest
        }
    }
}

/// Plies of result games.
pub open spec fn result_plies(games: Seq<(usize, GameRecord)>) -> nat
    decreases games.len(),
{
    if games.len() == 0 {
        0
    } else {
        result_plies(games.drop_last()) + if games.last().1.outcome is Some {
            games.last().1.plies@.len()
        } else {
            0
        }
    }
}

/// Games that carry a result.
pub open spec fn result_games(games: Seq<(usize, GameRecord)>) -> nat
    decreases games.len(),
{
    if games.len() == 0 {
        0
    } else {
        result_games(games.drop_last()) + if games.last().1.outcome is Some { 1nat } else { 0 }
    }
}

/// Total number of coordinates over all shards.
pub open spec fn total_coords(c: Seq<Seq<(usize, usize)>>) -> nat
    decreases c.len(),
{
    if c.len() == 0 { 0 } else { total_coords(c.drop_last()) + c.last().len() }
}

/// `0 + 1 + ... + n`: the total recency weight of `n` shards.
pub open spec fn tri(n: nat) -> nat
    decreases n,
{
    if n == 0 { 0 } else { tri((n - 1) as nat) + n }
}

/// The shard a weighted pick lands in: walking shards from `s`, shard `t`
/// covers the next `t + 1` pick values; past the last shard the pick falls
/// to the last one.
pub open spec fn pick_shard(pick: nat, s: nat, shards: nat) -> nat
    decreases shards - s,
{
    if s >= shards {
        (shards - 1) as nat
    } else if pick < s + 1 {
        s
    } else {
        pick_shard((pick - (s + 1)) as nat, s + 1, shards)
    }
}

/// Index of the first non-empty shard at or after `s`.
pub open spec fn first_nonempty_from(c: Seq<Seq<(usize, usize)>>, s: nat) -> nat
    decreases c.len() - s,
{
    if s >= c.len() {
        s
    } else if c[s as int].len() > 0 {
        s
    } else {
        first_nonempty_from(c, s + 1)
    }
}

/// The coordinate drawn from the index `c` by a generator in state `state`:
/// the first draw picks a shard by recency weight (falling back to the first
/// non-empty shard when the picked one has no result plies), the second a
/// coordinate within it.
pub open spec fn draw_coord(c: Seq<Seq<(usize, usize)>>, state: u64) -> (usize, usize) {
    let shards: nat = if c.len() > 0 { c.len() } else { 1 };
    let r1 = mix(advance(state));
    let shard = pick_shard((r1 as nat) % tri(shards), 0, shards);
    let pool = if c[shard as int].len() == 0 {
        c[first_nonempty_from(c, 0) as int]
    } else {
        c[shard as int]
    };
    let r2 = mix(advance(advance(state)));
    pool[((r2 as usize) as nat % pool.len()) as int]
}

/// The coordinates of `n` successive draws starting in state `state`.
pub open spec fn draw_coords(c: Seq<Seq<(usize, usize)>>, state: u64, n: nat) -> Seq<(usize, usize)>
    decreases n,
{
    if n == 0 {
        Seq::empty()
    } else {
        seq![draw_coord(c, state)] + draw_coords(c, advance(advance(state)), (n - 1) as nat)
    }
}

/// The generator state after `n` draws of a coordinate (two values each).
pub open spec fn state_after_draws(state: u64, n: nat) -> u64
    decreases n,
{
    if n == 0 { state } else { state_after_draws(advance(advance(state)), (n - 1) as nat) }
}

/// The views of a list of vectors.
pub open spec fn vec_views(c: Seq<Vec<(usize, usize)>>) -> Seq<Seq<(usize, usize)>> {
    Seq::new(c.len(), |s: int| c[s]@)
}

/// Why sampling refused.
#[derive(Debug, Clone, Copy, PartialEq, Eq)]
pub enum SampleError {
    /// No result game has a ply to sample.
    NoSampleablePositions,
}

/// A loaded replay store with on-demand sampling.
pub struct ReplayStore {
    dir: String,
    /// `(shard_index, game)` in insertion order.
    games: Vec<(usize, GameRecord)>,
    /// `(game_index, ply_index)` per shard, for result games only.
    coords_by_shard: Vec<Vec<(usize, usize)>>,
    total_positions: u64,
}

impl ReplayStore {
    /// The indexed games.
    pub closed spec fn games_spec(&self) -> Seq<(usize, GameRecord)> {
        self.games@
    }

    /// The per-shard coordinate index.
    pub closed spec fn coords_spec(&self) -> Seq<Seq<(usize, usize)>> {
        vec_views(self.coords_by_shard@)
    }

    /// The replay directory.
    pub closed spec fn dir_spec(&self) -> Seq<char> {
        self.dir@
    }

    #[verifier::type_invariant]
    closed spec fn indexed(&self) -> bool {
        &&& self.coords_by_shard@.len() == shard_span(self.games@)
        &&& forall|s: int|
            0 <= s < self.coords_by_shard@.len() ==> #[trigger] self.coords_by_shard@[s]@
                == shard_coords(self.games@, s as nat)
        &&& self.total_positions == result_plies(self.games@)
        &&& total_coords(vec_views(self.coords_by_shard@)) == result_plies(self.games@)
        &&& result_plies(self.games@) <= usize::MAX
    }

    /// Index games given as `(shard index, game)` in replay order.
    pub fn from_games(dir: String, games: Vec<(usize, GameRecord)>) -> (r: Self)
        requires
            result_plies(games@) <= usize::MAX,
            forall|i: int| 0 <= i < games@.len() ==> #[trigger] games@[i].0 < usize::MAX,
        ensures
            r.games_spec() == games@,
            r.dir_spec() == dir@,
            r.coords_spec().len() == shard_span(games@),
            forall|s: int|
                0 <= s < r.coords_spec().len() ==> #[trigger] r.coords_spec()[s] == shard_coords(
                    games@,
                    s as nat,
                ),
    {
        let mut span: usize = 0;
        let mut i: usize = 0;
        while i < games.len()
            invariant
                i <= games@.len(),
                span == shard_span(games@.take(i as int)),
                forall|j: int| 0 <= j < games@.len() ==> #[trigger] games@[j].0 < usize::MAX,
            decreases games.len() - i,
        {
            assert(games@.take(i + 1).drop_last() =~= games@.take(i as int));
            assert(games@[i as int].0 < usize::MAX);
            if games[i].0 >= span {
                span = games[i].0 + 1;
            }
            i = i + 1;
        }
        assert(games@.take(i as int) =~= games@);
        let mut coords: Vec<Vec<(usize, usize)>> = Vec::new();
        let mut s: usize = 0;
        while s < span
            invariant
                s <= span,
                span == shard_span(games@),
                coords@.len() == s,
                forall|t: int| 0 <= t < s ==> #[trigger] coords@[t]@ == shard_coords(games@, t as nat),
            decreases span - s,
        {
            let mut mine: Vec<(usize, usize)> = Vec::new();
            let mut gi: usize = 0;
            while gi < games.len()
                invariant
                    gi <= games@.len(),
                    mine@ == shard_coords(games@.take(gi as int), s as nat),
                decreases games.len() - gi,
            {
                assert(games@.take(gi + 1).drop_last() =~= games@.take(gi as int));
                if games[gi].0 == s && games[gi].1.outcome.is_some() {
                    let n = games[gi].1.plies.len();
                    let ghost before = mine@;
                    let mut pi: usize = 0;
                    while pi < n
                        invariant
                            pi <= n,
                            n == games@[gi as int].1.plies@.len(),
                            mine@ == before + Seq::new(pi as nat, |k: int| (gi, k as usize)),
                        decreases n - pi,
                    {
                        mine.push((gi, pi));
                        assert(mine@ =~= before + Seq::new((pi + 1) as nat, |k: int| (gi, k as usize)));
                        pi = pi + 1;
                    }
                }
                gi = gi + 1;
            }
            assert(games@.take(gi as int) =~= games@);
            coords.push(mine);
            s = s + 1;
        }
        let mut total: u64 = 0;
        let mut g: usize = 0;
        while g < games.len()
            invariant
                g <= games@.len(),
                total == result_plies(games@.take(g as int)),
                result_plies(games@) <= usize::MAX,
            decreases games.len() - g,
        {
            assert(games@.take(g + 1).drop_last() =~= games@.take(g as int));
            proof {
                lemma_result_plies_prefix(games@, g + 1);
            }
            if games[g].1.outcome.is_some() {
                total = total + games[g].1.plies.len() as u64;
            }
            g = g + 1;
        }
        assert(games@.take(g as int) =~= games@);
        proof {
            assert(vec_views(coords@) =~= Seq::new(span as nat, |t: int| shard_coords(games@, t as nat)));
            lemma_total_coords_is_result_plies(games@, span as nat);
        }
        let r = ReplayStore { dir, games, coords_by_shard: coords, total_positions: total };
        assert(r.coords_spec().len() == shard_span(r.games@));
        r
    }

    /// The replay directory.
    pub fn dir(&self) -> (r: &String)
        ensures
            r@ == self.dir_spec(),
    {
        &self.dir
    }

    /// Plies of result games.
    pub fn total_positions(&self) -> (r: u64)
        ensures
            r == result_plies(self.games_spec()),
    {
        proof {
            use_type_invariant(self);
        }
        self.total_positions
    }

    /// All indexed games.
    pub fn total_games(&self) -> (r: usize)
        ensures
            r == self.games_spec().len(),
    {
        self.games.len()
    }

    /// Games with a result (their plies are sampleable).
    pub fn trainable_games(&self) -> (r: usize)
        ensures
            r == result_games(self.games_spec()),
    {
        let mut n: usize = 0;
        let mut i: usize = 0;
        while i < self.games.len()
            invariant
                i <= self.games@.len(),
                n == result_games(self.games@.take(i as int)),
                n <= i,
            decreases self.games.len() - i,
        {
            assert(self.games@.take(i + 1).drop_last() =~= self.games@.take(i as int));
            if self.games[i].1.outcome.is_some() {
                n = n + 1;
            }
            i = i + 1;
        }
        assert(self.games@.take(i as int) =~= self.games@);
        n
    }

    /// Positions available for sampling.
    pub fn sampleable(&self) -> (r: usize)
        ensures
            r == total_coords(self.coords_spec()),
            r == result_plies(self.games_spec()),
    {
        proof {
            use_type_invariant(self);
        }
        let mut n: usize = 0;
        let mut s: usize = 0;
        let ghost c = self.coords_spec();
        while s < self.coords_by_shard.len()
            invariant
                s <= self.coords_by_shard@.len(),
                c == self.coords_spec(),
                total_coords(c) <= usize::MAX,
                n == total_coords(c.take(s as int)),
            decreases self.coords_by_shard.len() - s,
        {
            assert(c.take(s + 1).drop_last() =~= c.take(s as int));
            proof {
                lemma_total_coords_fits(c, s + 1);
            }
            n = n + self.coords_by_shard[s].len();
            s = s + 1;
        }
        assert(c.take(s as int) =~= c);
        n
    }

    /// Number of shards (for age reporting).
    pub fn shard_count(&self) -> (r: usize)
        ensures
            r == self.coords_spec().len(),
    {
        self.coords_by_shard.len()
    }

    /// One recency-weighted draw of a sampleable coordinate.
    pub fn sample_coord(&self, rng: &mut Rng) -> (c: (usize, usize))
        requires
            total_coords(self.coords_spec()) > 0,
            self.coords_spec().len() < 0x1_0000_0000,
        ensures
            c == draw_coord(self.coords_spec(), old(rng).state()),
            final(rng).state() == advance(advance(old(rng).state())),
    {
        let ghost cs = self.coords_spec();
        proof {
            lemma_nonempty_shard_exists(cs);
        }
        let n = self.coords_by_shard.len();
        let shards: usize = if n > 0 { n } else { 1 };
        let weight_total = triangle(shards as u64);
        let r1 = rng.next_u64();
        let pick = r1 % weight_total;
        let shard = pick_weighted_shard(pick, shards as u64) as usize;
        let pool: &Vec<(usize, usize)> = if self.coords_by_shard[shard].len() == 0 {
            let f = first_nonempty(&self.coords_by_shard);
            &self.coords_by_shard[f]
        } else {
            &self.coords_by_shard[shard]
        };
        let r2 = rng.next_u64();
        pool[(r2 as usize) % pool.len()]
    }

    /// `n` recency-weighted draws of sampleable coordinates.
    pub fn sample_coords(&self, n: usize, rng: &mut Rng) -> (r: Result<Vec<(usize, usize)>, SampleError>)
        requires
            self.coords_spec().len() < 0x1_0000_0000,
        ensures
            total_coords(self.coords_spec()) == 0 ==> r == Err::<Vec<(usize, usize)>, SampleError>(
                SampleError::NoSampleablePositions,
            ) && final(rng).state() == old(rng).state(),
            total_coords(self.coords_spec()) > 0 ==> r is Ok && r->Ok_0@ == draw_coords(
                self.coords_spec(),
                old(rng).state(),
                n as nat,
            ) && final(rng).state() == state_after_draws(old(rng).state(), n as nat),
    {
        if self.sampleable() == 0 {
            return Err(SampleError::NoSampleablePositions);
        }
        let ghost c = self.coords_spec();
        let ghost s0 = rng.state();
        let mut out: Vec<(usize, usize)> = Vec::new();
        let mut k: usize = 0;
        while k < n
            invariant
                k <= n,
                c == self.coords_spec(),
                total_coords(c) > 0,
                c.len() < 0x1_0000_0000,
                draw_coords(c, s0, n as nat) == out@ + draw_coords(c, rng.state(), (n - k) as nat),
                state_after_draws(s0, n as nat) == state_after_draws(rng.state(), (n - k) as nat),
            decreases n - k,
        {
            let ghost before = rng.state();
            let coord = self.sample_coord(rng);
            assert(draw_coords(c, before, (n - k) as nat) =~= seq![coord] + draw_coords(
                c,
                rng.state(),
                (n - k - 1) as nat,
            ));
            out.push(coord);
            k = k + 1;
        }
        assert(out@ =~= draw_coords(c, s0, n as nat));
        Ok(out)
    }
}

/// `0 + 1 + ... + n` without overflow for `n < 2^32`.
fn triangle(n: u64) -> (r: u64)
    requires
        1 <= n < 0x1_0000_0000,
    ensures
        r == tri(n as nat),
        r >= 1,
{
    let mut t: u64 = 0;
    let mut i: u64 = 0;
    while i < n
        invariant
            i <= n < 0x1_0000_0000,
            t == tri(i as nat),
            t <= i * i,
        decreases n - i,
    {
        i = i + 1;
        assert(t + i <= i * i) by (nonlinear_arith)
            requires
                t <= (i - 1) * (i - 1),
                i >= 1,
        ;
        assert(i * i < 0x1_0000_0000 * 0x1_0000_0000) by (nonlinear_arith)
            requires
                i < 0x1_0000_0000,
        ;
        t = t + i;
    }
    t
}

/// The shard a weighted pick in `[0, tri(shards))` lands in.
fn pick_weighted_shard(pick: u64, shards: u64) -> (r: u64)
    requires
        1 <= shards < 0x1_0000_0000,
    ensures
        r == pick_shard(pick as nat, 0, shards as nat),
        r < shards,
{
    let mut p = pick;
    let mut s: u64 = 0;
    while s < shards && p >= s + 1
        invariant
            s <= shards,
            pick_shard(p as nat, s as nat, shards as nat) == pick_shard(pick as nat, 0, shards as nat),
        decreases shards - s,
    {
        p = p - (s + 1);
        s = s + 1;
    }
    if s < shards {
        s
    } else {
        shards - 1
    }
}

/// The first shard with a coordinate.
fn first_nonempty(c: &Vec<Vec<(usize, usize)>>) -> (r: usize)
    requires
        exists|s: int| 0 <= s < c@.len() && #[trigger] c@[s]@.len() > 0,
    ensures
        r < c@.len(),
        c@[r as int]@.len() > 0,
        r == first_nonempty_from(vec_views(c@), 0),
{
    let ghost cs = vec_views(c@);
    let ghost w = choose|t: int| 0 <= t < c@.len() && #[trigger] c@[t]@.len() > 0;
    let len = c.len();
    let mut s: usize = 0;
    while c[s].len() == 0
        invariant
            len == c@.len(),
            cs == vec_views(c@),
            0 <= w < c@.len(),
            c@[w]@.len() > 0,
            s <= w,
            first_nonempty_from(cs, s as nat) == first_nonempty_from(cs, 0),
        decreases c@.len() - s,
    {
        assert(cs[s as int] == c@[s as int]@);
        assert(c@[s as int]@.len() == 0);
        assert(s != w);
        s = s + 1;
    }
    assert(cs[s as int] == c@[s as int]@);
    s
}

proof fn lemma_nonempty_shard_exists(c: Seq<Seq<(usize, usize)>>)
    requires
        total_coords(c) > 0,
    ensures
        exists|s: int| 0 <= s < c.len() && #[trigger] c[s].len() > 0,
    decreases c.len(),
{
    if c.last().len() == 0 {
        lemma_nonempty_shard_exists(c.drop_last());
        let s = choose|s: int| 0 <= s < c.drop_last().len() && #[trigger] c.drop_last()[s].len() > 0;
        assert(c[s] == c.drop_last()[s]);
    } else {
        assert(c[c.len() - 1].len() > 0);
    }
}

proof fn lemma_result_plies_prefix(games: Seq<(usize, GameRecord)>, j: int)
    requires
        0 <= j <= games.len(),
    ensures
        result_plies(games.take(j)) <= result_plies(games),
    decreases games.len() - j,
{
    if j < games.len() {
        lemma_result_plies_prefix(games, j + 1);
        assert(games.take(j + 1).drop_last() =~= games.take(j));
    } else {
        assert(games.take(j) =~= games);
    }
}

proof fn lemma_total_coords_fits(c: Seq<Seq<(usize, usize)>>, j: int)
    requires
        0 <= j <= c.len(),
    ensures
        total_coords(c.take(j)) <= total_coords(c),
    decreases c.len() - j,
{
    if j < c.len() {
        lemma_total_coords_fits(c, j + 1);
        assert(c.take(j + 1).drop_last() =~= c.take(j));
    } else {
        assert(c.take(j) =~= c);
    }
}

/// Coordinates summed over the first `n` shards.
pub open spec fn shard_lens(games: Seq<(usize, GameRecord)>, n: nat) -> nat
    decreases n,
{
    if n == 0 { 0 } else { shard_lens(games, (n - 1) as nat) + shard_coords(games, (n - 1) as nat).len() }
}

proof fn lemma_shard_lens_step(games: Seq<(usize, GameRecord)>, n: nat)
    requires
        games.len() > 0,
    ensures
        shard_lens(games, n) == shard_lens(games.drop_last(), n) + (if games.last().0 < n
            && games.last().1.outcome is Some { games.last().1.plies@.len() } else { 0 }),
    decreases n,
{
    if n > 0 {
        lemma_shard_lens_step(games, (n - 1) as nat);
    }
}

proof fn lemma_span_bound(games: Seq<(usize, GameRecord)>)
    ensures
        games.len() > 0 ==> games.last().0 < shard_span(games),
        games.len() > 0 ==> shard_span(games.drop_last()) <= shard_span(games),
{
}

proof fn lemma_shard_lens_total(games: Seq<(usize, GameRecord)>, n: nat)
    requires
        n >= shard_span(games),
    ensures
        shard_lens(games, n) == result_plies(games),
    decreases games.len(),
{
    if games.len() > 0 {
        lemma_span_bound(games);
        lemma_shard_lens_total(games.drop_last(), n);
        lemma_shard_lens_step(games, n);
    } else {
        lemma_shard_lens_empty(games, n);
    }
}

proof fn lemma_shard_lens_empty(games: Seq<(usize, GameRecord)>, n: nat)
    requires
        games.len() == 0,
    ensures
        shard_lens(games, n) == 0,
    decreases n,
{
    if n > 0 {
        lemma_shard_lens_empty(games, (n - 1) as nat);
    }
}

proof fn lemma_total_coords_new(games: Seq<(usize, GameRecord)>, n: nat)
    ensures
        total_coords(Seq::new(n, |t: int| shard_coords(games, t as nat))) == shard_lens(games, n),
    decreases n,
{
    if n > 0 {
        lemma_total_coords_new(games, (n - 1) as nat);
        assert(Seq::new(n, |t: int| shard_coords(games, t as nat)).drop_last() =~= Seq::new(
            (n - 1) as nat,
            |t: int| shard_coords(games, t as nat),
        ));
    }
}

/// Only result plies are sampleable: the index holds exactly one coordinate
/// for every ply of every result game, and none for truncated or aborted
/// games.
pub proof fn lemma_total_coords_is_result_plies(games: Seq<(usize, GameRecord)>, n: nat)
    requires
        n == shard_span(games),
    ensures
        total_coords(Seq::new(n, |t: int| shard_coords(games, t as nat))) == result_plies(games),
{
    lemma_total_coords_new(games, n);
    lemma_shard_lens_total(games, n);
}

proof fn lemma_tri_monotone(a: nat, b: nat)
    requires
        a <= b,
    ensures
        tri(a) <= tri(b),
    decreases b - a,
{
    if a < b {
        lemma_tri_monotone(a, (b - 1) as nat);
    }
}

proof fn lemma_pick_shard_from(p: nat, t: nat, s: nat, shards: nat)
    requires
        t <= s < shards,
        tri(s) - tri(t) <= p < tri(s + 1) - tri(t),
    ensures
        pick_shard(p, t, shards) == s,
    decreases s - t,
{
    if t < s {
        lemma_tri_monotone(t + 1, s);
        lemma_pick_shard_from((p - (t + 1)) as nat, t + 1, s, shards);
    }
}

/// Recency weighting: of the `tri(shards)` pick values, exactly the `s + 1`
/// values in `[tri(s), tri(s + 1))` select shard `s`, so shard `s` is drawn
/// with weight `s + 1` and newer shards are favored.
pub proof fn lemma_recency_weight(pick: nat, s: nat, shards: nat)
    requires
        s < shards,
        tri(s) <= pick < tri(s + 1),
    ensures
        pick_shard(pick, 0, shards) == s,
        tri(s + 1) - tri(s) == s + 1,
{
    lemma_pick_shard_from(pick, 0, s, shards);
}

/// Every coordinate indexed for shard `s` names a ply of a result game
/// stored in shard `s`.
proof fn lemma_shard_coords_valid(games: Seq<(usize, GameRecord)>, s: nat, k: int)
    requires
        games.len() <= usize::MAX,
        forall|i: int| 0 <= i < games.len() ==> (#[trigger] games[i]).1.plies@.len() <= usize::MAX,
        0 <= k < shard_coords(games, s).len(),
    ensures
        ({
            let c = shard_coords(games, s)[k];
            &&& (c.0 as int) < games.len()
            &&& games[c.0 as int].0 == s
            &&& games[c.0 as int].1.outcome is Some
            &&& (c.1 as int) < games[c.0 as int].1.plies@.len()
        }),
    decreases games.len(),
{
    let rest = shard_coords(games.drop_last(), s);
    if k < rest.len() {
        assert forall|i: int| 0 <= i < games.drop_last().len() implies (
        #[trigger] games.drop_last()[i]).1.plies@.len() <= usize::MAX by {
            assert(games.drop_last()[i] == games[i]);
        }
        lemma_shard_coords_valid(games.drop_last(), s, k);
        let c = rest[k];
        assert(games.drop_last()[c.0 as int] == games[c.0 as int]);
    } else {
        let gi = games.len() - 1;
        assert(games[gi] == games.last());
    }
}

proof fn lemma_pick_shard_bound(pick: nat, s: nat, shards: nat)
    requires
        shards >= 1,
    ensures
        pick_shard(pick, s, shards) < shards,
    decreases shards - s,
{
    if s < shards && pick >= s + 1 {
        lemma_pick_shard_bound((pick - (s + 1)) as nat, s + 1, shards);
    }
}

proof fn lemma_first_nonempty_from(c: Seq<Seq<(usize, usize)>>, s: nat, w: nat)
    requires
        s <= w < c.len(),
        c[w as int].len() > 0,
    ensures
        first_nonempty_from(c, s) < c.len(),
        c[first_nonempty_from(c, s) as int].len() > 0,
    decreases w - s,
{
    if c[s as int].len() == 0 {
        lemma_first_nonempty_from(c, s + 1, w);
    }
}

/// Only result plies are ever sampled: whatever state the generator is in,
/// a draw from a store's index names a ply of a game that carries a result.
pub proof fn lemma_drawn_coord_is_result_ply(games: Seq<(usize, GameRecord)>, state: u64)
    requires
        games.len() <= usize::MAX,
        forall|i: int| 0 <= i < games.len() ==> (#[trigger] games[i]).1.plies@.len() <= usize::MAX,
        result_plies(games) > 0,
    ensures
        ({
            let d = draw_coord(Seq::new(shard_span(games), |t: int| shard_coords(games, t as nat)), state);
            &&& (d.0 as int) < games.len()
            &&& games[d.0 as int].1.outcome is Some
            &&& (d.1 as int) < games[d.0 as int].1.plies@.len()
        }),
{
    let n = shard_span(games);
    let c = Seq::new(n, |t: int| shard_coords(games, t as nat));
    lemma_total_coords_is_result_plies(games, n);
    lemma_nonempty_shard_exists(c);
    let w = choose|t: int| 0 <= t < c.len() && #[trigger] c[t].len() > 0;
    let shards: nat = if c.len() > 0 { c.len() } else { 1 };
    let r1 = mix(advance(state));
    let shard = pick_shard((r1 as nat) % tri(shards), 0, shards);
    lemma_pick_shard_bound((r1 as nat) % tri(shards), 0, shards);
    lemma_first_nonempty_from(c, 0, w as nat);
    let si: nat = if c[shard as int].len() == 0 { first_nonempty_from(c, 0) } else { shard };
    let pool = c[si as int];
    assert(pool.len() > 0);
    let r2 = mix(advance(advance(state)));
    let k = ((r2 as usize) as nat % pool.len()) as int;
    lemma_shard_coords_valid(games, si, k);
}

/// Index of the first occurrence of `a` in `legal`.
pub open spec fn first_index_of(legal: Seq<u32>, a: u32, i: int) -> bool {
    &&& 0 <= i < legal.len()
    &&& legal[i] == a
    &&& forall|j: int| 0 <= j < i ==> legal[j] != a
}

/// Where each target entry lands in the regenerated legal list: the first
/// position of its action. The first entry whose action is not legal makes
/// the whole target misaligned; its action is returned.
pub fn target_positions(legal: &Vec<u32>, target: &Vec<(u16, u32)>) -> (r: Result<Vec<usize>, u16>)
    ensures
        r is Ok <==> forall|k: int| 0 <= k < target@.len() ==> legal@.contains(#[trigger] target@[k].0 as u32),
        r matches Ok(p) ==> p@.len() == target@.len() && forall|k: int|
            0 <= k < target@.len() ==> first_index_of(legal@, target@[k].0 as u32, #[trigger] p@[k] as int),
        r matches Err(a) ==> exists|k: int|
            0 <= k < target@.len() && #[trigger] target@[k].0 == a && !legal@.contains(a as u32) && forall|j: int|
                0 <= j < k ==> legal@.contains(#[trigger] target@[j].0 as u32),
{
    let mut out: Vec<usize> = Vec::new();
    let mut k: usize = 0;
    while k < target.len()
        invariant
            k <= target@.len(),
            out@.len() == k,
            forall|j: int| 0 <= j < k ==> legal@.contains(#[trigger] target@[j].0 as u32),
            forall|j: int| 0 <= j < k ==> first_index_of(legal@, target@[j].0 as u32, #[trigger] out@[j] as int),
        decreases target.len() - k,
    {
        let a = target[k].0 as u32;
        let mut i: usize = 0;
        while i < legal.len() && legal[i] != a
            invariant
                i <= legal@.len(),
                forall|j: int| 0 <= j < i ==> legal@[j] != a,
            decreases legal.len() - i,
        {
            i = i + 1;
        }
        if i == legal.len() {
            assert(!legal@.contains(a)) by {
                if legal@.contains(a) {
                    let w = choose|w: int| 0 <= w < legal@.len() && legal@[w] == a;
                    assert(legal@[w] != a);
                }
            }
            assert(target@[k as int].0 == target[k as int].0);
            return Err(target[k].0);
        }
        assert(legal@[i as int] == a);
        out.push(i);
        k = k + 1;
    }
    Ok(out)
}

} // verus!
