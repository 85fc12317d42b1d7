//! Bounded replay capacity: which shards stay active and which are archived.
//!
//! The newest shard is always kept; older shards are kept, newest first, for
//! as long as the kept positions stay within the capacity. Everything else is
//! archived, and the manifest is rewritten to index only the kept shards. The
//! file moves (copy into `archive/`, durable manifest replacement, removal of
//! active copies) follow the plan computed here.

use vstd::prelude::*;

use crate::replay::schema::{Manifest, ReplayHeader, ShardInfo, sum_bytes, sum_games};

verus! {

/// Result of enforcing replay capacity.
#[derive(Debug, Clone, Copy, PartialEq, Eq)]
pub struct CapacityReport {
    pub kept_shards: usize,
    pub archived_shards: usize,
    pub positions: u64,
}

/// Positions in the newest `j` entries.
pub open spec fn suffix_positions(s: Seq<ShardInfo>, j: nat) -> nat
    decreases j,
{
    if j == 0 || j > s.len() {
        0
    } else {
        s[s.len() - j].positions as nat + suffix_positions(s, (j - 1) as nat)
    }
}

/// Keep-count search: starting from `j` kept entries, keep one more while the
/// newest `j + 1` entries still fit in `max`.
pub open spec fn keep_len_from(s: Seq<ShardInfo>, max: u64, j: nat) -> nat
    decreases s.len() - j,
{
    if j < s.len() && suffix_positions(s, j + 1) <= max {
        keep_len_from(s, max, j + 1)
    } else {
        j
    }
}

/// How many of the newest entries stay active under capacity `max`.
pub open spec fn kept_count(s: Seq<ShardInfo>, max: u64) -> nat {
    if s.len() == 0 { 0 } else { keep_len_from(s, max, 1) }
}

/// True when some entry of `kept` has file name `file`.
pub open spec fn names_file(kept: Seq<ShardInfo>, file: Seq<char>) -> bool {
    exists|j: int| 0 <= j < kept.len() && kept[j].file@ == file
}

/// The entries of `s`, in order, whose file is not one of the kept files.
pub open spec fn not_kept(s: Seq<ShardInfo>, kept: Seq<ShardInfo>) -> Seq<ShardInfo>
    decreases s.len(),
{
    if s.len() == 0 {
        Seq::empty()
    } else if names_file(kept, s.last().file@) {
        not_kept(s.drop_last(), kept)
    } else {
        not_kept(s.drop_last(), kept).push(s.last())
    }
}

/// What enforcing capacity does to a replay.
#[derive(Debug)]
pub struct CapacityPlan {
    /// Shards that stay active, in manifest order.
    pub kept: Vec<ShardInfo>,
    /// Shards to move into the archive, in manifest order.
    pub archived: Vec<ShardInfo>,
    /// The manifest to publish, when anything is archived.
    pub manifest: Option<Manifest>,
    pub report: CapacityReport,
}

/// The plan for enforcing capacity `max_positions` on a manifest.
pub open spec fn plan_ok(m: Manifest, max_positions: u64, p: CapacityPlan) -> bool {
    let s = m.shards@;
    let k = kept_count(s, max_positions);
    &&& p.kept@ == s.skip(s.len() - k)
    &&& p.archived@ == not_kept(s, p.kept@)
    &&& p.report.kept_shards == k
    &&& p.report.archived_shards == p.archived@.len()
    &&& p.report.positions == suffix_positions(s, k)
    &&& (p.archived@.len() == 0 ==> p.manifest is None)
    &&& (p.archived@.len() > 0 ==> p.manifest == Some(
        Manifest {
            header: m.header,
            shards: p.manifest->Some_0.shards,
            games: sum_games(p.kept@) as u64,
            bytes: sum_bytes(p.kept@) as u64,
        },
    ) && p.manifest->Some_0.shards@ == p.kept@)
}

/// Sums over a suffix never exceed the sums over the whole list.
proof fn lemma_suffix_sums_le(s: Seq<ShardInfo>, j: int)
    requires
        0 <= j <= s.len(),
    ensures
        sum_games(s.skip(j)) <= sum_games(s),
        sum_bytes(s.skip(j)) <= sum_bytes(s),
    decreases s.len(),
{
    if j < s.len() {
        lemma_suffix_sums_le(s.drop_last(), j);
        assert(s.skip(j).drop_last() =~= s.drop_last().skip(j));
    } else {
        assert(s.skip(j) =~= Seq::<ShardInfo>::empty());
    }
}

/// Whether shard `info` can join `j` kept shards holding `positions`.
fn can_keep(j: usize, positions: u64, info_positions: u64, max_positions: u64) -> (r: bool)
    ensures
        r == (j == 0 || positions + info_positions <= max_positions),
{
    j == 0 || (positions <= max_positions && info_positions <= max_positions - positions)
}

/// True when some entry of `kept` has file name `file`.
fn contains_file(kept: &Vec<ShardInfo>, file: &String) -> (r: bool)
    ensures
        r == names_file(kept@, file@),
{
    let mut j: usize = 0;
    while j < kept.len()
        invariant
            j <= kept@.len(),
            forall|t: int| 0 <= t < j ==> kept@[t].file@ != file@,
        decreases kept.len() - j,
    {
        if kept[j].file == *file {
            return true;
        }
        j = j + 1;
    }
    false
}

/// Plan the archiving that brings the active replay within `max_positions`.
pub fn plan_capacity(manifest: &Manifest, max_positions: u64) -> (p: CapacityPlan)
    requires
        sum_games(manifest.shards@) <= u64::MAX,
        sum_bytes(manifest.shards@) <= u64::MAX,
    ensures
        plan_ok(*manifest, max_positions, p),
{
    let ghost s = manifest.shards@;
    let n = manifest.shards.len();
    let mut j: usize = 0;
    let mut positions: u64 = 0;
    while j < n && can_keep(j, positions, manifest.shards[n - 1 - j].positions, max_positions)
        invariant
            s == manifest.shards@,
            n == s.len(),
            j <= n,
            positions == suffix_positions(s, j as nat),
            j >= 1 ==> keep_len_from(s, max_positions, j as nat) == kept_count(s, max_positions),
        decreases n - j,
    {
        positions = positions + manifest.shards[n - 1 - j].positions;
        j = j + 1;
    }
    proof {
        if n > 0 {
            assert(j >= 1);
            assert(keep_len_from(s, max_positions, j as nat) == j);
        }
    }
    let ghost k = kept_count(s, max_positions);
    assert(j == k);
    let mut kept: Vec<ShardInfo> = Vec::new();
    let mut games: u64 = 0;
    let mut bytes: u64 = 0;
    let start = n - j;
    let mut i = start;
    proof {
        lemma_suffix_sums_le(s, start as int);
    }
    while i < n
        invariant
            s == manifest.shards@,
            n == s.len(),
            start <= i <= n,
            kept@ == s.subrange(start as int, i as int),
            games == sum_games(kept@),
            bytes == sum_bytes(kept@),
            sum_games(s.skip(start as int)) <= u64::MAX,
            sum_bytes(s.skip(start as int)) <= u64::MAX,
        decreases n - i,
    {
        proof {
            let t = s.subrange(start as int, i + 1);
            assert(t.drop_last() =~= s.subrange(start as int, i as int));
            lemma_prefix_sums_le(s.skip(start as int), i + 1 - start);
            assert(s.skip(start as int).take(i + 1 - start) =~= t);
        }
        games = games + manifest.shards[i].games;
        bytes = bytes + manifest.shards[i].bytes;
        let ghost before = kept@;
        kept.push(manifest.shards[i].clone());
        assert(kept@.drop_last() =~= before);
        i = i + 1;
    }
    assert(kept@ =~= s.skip(start as int));
    let mut archived: Vec<ShardInfo> = Vec::new();
    let mut a: usize = 0;
    while a < n
        invariant
            s == manifest.shards@,
            n == s.len(),
            a <= n,
            archived@ == not_kept(s.take(a as int), kept@),
        decreases n - a,
    {
        assert(s.take(a + 1).drop_last() =~= s.take(a as int));
        if !contains_file(&kept, &manifest.shards[a].file) {
            archived.push(manifest.shards[a].clone());
        }
        a = a + 1;
    }
    assert(s.take(a as int) =~= s);
    let report = CapacityReport {
        kept_shards: kept.len(),
        archived_shards: archived.len(),
        positions,
    };
    let new_manifest = if archived.len() > 0 {
        Some(Manifest {
            header: manifest.header.clone(),
            shards: crate::replay::schema::clone_shards(&kept),
            games,
            bytes,
        })
    } else {
        None
    };
    CapacityPlan { kept, archived, manifest: new_manifest, report }
}

/// Sums over a prefix never exceed the sums over the whole list.
proof fn lemma_prefix_sums_le(s: Seq<ShardInfo>, j: int)
    requires
        0 <= j <= s.len(),
    ensures
        sum_games(s.take(j)) <= sum_games(s),
        sum_bytes(s.take(j)) <= sum_bytes(s),
    decreases s.len() - j,
{
    if j < s.len() {
        lemma_prefix_sums_le(s, j + 1);
        assert(s.take(j + 1).drop_last() =~= s.take(j));
    } else {
        assert(s.take(j) =~= s);
    }
}

/// The keep-count search stops at a count that still fits (beyond the first
/// kept entry) and cannot be extended.
proof fn lemma_keep_len_from(s: Seq<ShardInfo>, max: u64, j: nat)
    requires
        1 <= j <= s.len(),
    ensures
        j <= keep_len_from(s, max, j) <= s.len(),
        keep_len_from(s, max, j) == j || suffix_positions(s, keep_len_from(s, max, j)) <= max,
        keep_len_from(s, max, j) == s.len() || suffix_positions(s, keep_len_from(s, max, j) + 1)
            > max,
    decreases s.len() - j,
{
    if j < s.len() && suffix_positions(s, j + 1) <= max {
        lemma_keep_len_from(s, max, j + 1);
    }
}

/// Capacity bound: unless only the newest shard is kept, the kept shards
/// hold at most `max` positions; the newest shard is always kept; and no
/// further (older) shard could have been kept within the bound.
pub proof fn lemma_capacity_bound(s: Seq<ShardInfo>, max: u64)
    requires
        s.len() > 0,
    ensures
        1 <= kept_count(s, max) <= s.len(),
        kept_count(s, max) == 1 || suffix_positions(s, kept_count(s, max)) <= max,
        kept_count(s, max) == s.len() || suffix_positions(s, kept_count(s, max) + 1) > max,
{
    lemma_keep_len_from(s, max, 1);
}

/// No two entries share a file name.
pub open spec fn distinct_files(s: Seq<ShardInfo>) -> bool {
    forall|a: int, b: int| 0 <= a < s.len() && 0 <= b < s.len() && a != b ==> s[a].file@ != s[b].file@
}

proof fn lemma_not_kept_prefix(s: Seq<ShardInfo>, start: int, a: int)
    requires
        distinct_files(s),
        0 <= start <= s.len(),
        0 <= a <= s.len(),
    ensures
        not_kept(s.take(a), s.skip(start)) == s.take(if a < start { a } else { start }),
    decreases a,
{
    let kept = s.skip(start);
    if a == 0 {
        assert(s.take(0) =~= Seq::<ShardInfo>::empty());
    } else {
        let t = s.take(a);
        assert(t.drop_last() =~= s.take(a - 1));
        lemma_not_kept_prefix(s, start, a - 1);
        if a - 1 >= start {
            assert(kept[a - 1 - start] == s[a - 1]);
            assert(names_file(kept, t.last().file@));
        } else {
            assert forall|j: int| 0 <= j < kept.len() implies kept[j].file@ != t.last().file@ by {
                assert(kept[j] == s[start + j]);
            }
            assert(!names_file(kept, t.last().file@));
            assert(s.take(a - 1).push(s[a - 1]) =~= s.take(a));
        }
    }
}

/// Nothing is lost: when the manifest's file names are distinct, the
/// archived shards are exactly the older shards, so archived followed by
/// kept is the manifest as it was.
pub proof fn lemma_capacity_partition(m: Manifest, max_positions: u64, p: CapacityPlan)
    requires
        plan_ok(m, max_positions, p),
        distinct_files(m.shards@),
    ensures
        p.archived@ + p.kept@ == m.shards@,
{
    let s = m.shards@;
    let k = kept_count(s, max_positions);
    if s.len() > 0 {
        lemma_keep_len_from(s, max_positions, 1);
    }
    let start = s.len() - k;
    lemma_not_kept_prefix(s, start, s.len() as int);
    assert(s.take(s.len() as int) =~= s);
    assert(s.take(start) + s.skip(start) =~= s);
}

} // verus!
