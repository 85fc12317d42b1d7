//! Self-play collection bookkeeping: per-game seeds and global game ids, and
//! the data-health counts of a collection.

use vstd::prelude::*;

use crate::replay::schema::GameRecord;
use crate::text::{chars_lt, lemma_chars_lt_asymmetric, lemma_chars_lt_total, lemma_chars_lt_transitive, str_equal, str_less};
use crate::run_dir::RunStatus;

verus! {

/// The RNG seed of a self-play game: the run seed plus the game's global id
/// (wrapping), so every cycle plays new games.
pub open spec fn game_seed_spec(base_seed: u64, global_game_id: u64) -> u64 {
    base_seed.wrapping_add(global_game_id)
}

/// The RNG seed of a self-play game from its global game id.
pub fn selfplay_game_seed(base_seed: u64, global_game_id: u64) -> (r: u64)
    ensures
        r == game_seed_spec(base_seed, global_game_id),
{
    base_seed.wrapping_add(global_game_id)
}

/// The global id of the `index`-th game of a collection whose first game id
/// is `game_id_base` (ids advance between pilot cycles).
pub fn global_game_id(game_id_base: u64, index: u64) -> (r: u64)
    ensures
        r == game_id_base.wrapping_add(index),
{
    game_id_base.wrapping_add(index)
}

/// Distinct games never share a seed: the seed is a bijection of the global
/// game id, so a later cycle (with later ids) never replays an earlier game.
pub proof fn lemma_distinct_games_distinct_seeds(base_seed: u64, a: u64, b: u64)
    requires
        a != b,
    ensures
        game_seed_spec(base_seed, a) != game_seed_spec(base_seed, b),
{
    assert(base_seed.wrapping_add(a) != base_seed.wrapping_add(b)) by (bit_vector)
        requires
            a != b,
    ;
}

/// Integer data-health counts of a collection.
#[derive(Debug, Clone, Copy, PartialEq, Eq, Structural)]
pub struct SelfPlayCounts {
    pub games: u64,
    pub plies: u64,
    pub white_wins: u64,
    pub draws: u64,
    pub black_wins: u64,
    /// Games without a result (truncated/aborted), never counted as draws.
    pub truncated: u64,
    /// Plies in games with a result (the learner's reuse denominator).
    pub trainable_positions: u64,
    pub trainable_games: u64,
}

/// Plies summed over games.
pub open spec fn plies_of(g: Seq<GameRecord>) -> nat
    decreases g.len(),
{
    if g.len() == 0 { 0 } else { plies_of(g.drop_last()) + g.last().plies@.len() }
}

/// Plies summed over games with a result.
pub open spec fn result_plies_of(g: Seq<GameRecord>) -> nat
    decreases g.len(),
{
    if g.len() == 0 {
        0
    } else {
        result_plies_of(g.drop_last()) + if g.last().outcome is Some { g.last().plies@.len() } else { 0 }
    }
}

/// Games whose outcome code is `code`.
pub open spec fn outcome_count(g: Seq<GameRecord>, code: u8) -> nat
    decreases g.len(),
{
    if g.len() == 0 {
        0
    } else {
        outcome_count(g.drop_last(), code) + if g.last().outcome == Some(code) { 1nat } else { 0 }
    }
}

/// Games with no outcome code in `0..=2` (no result).
pub open spec fn no_result_count(g: Seq<GameRecord>) -> nat
    decreases g.len(),
{
    if g.len() == 0 {
        0
    } else {
        no_result_count(g.drop_last()) + match g.last().outcome {
            Some(c) => if c <= 2 { 0nat } else { 1 },
            None => 1,
        }
    }
}

/// The counts of a collection.
pub open spec fn counts_spec(g: Seq<GameRecord>) -> SelfPlayCounts {
    SelfPlayCounts {
        games: g.len() as u64,
        plies: plies_of(g) as u64,
        white_wins: outcome_count(g, 0) as u64,
        draws: outcome_count(g, 1) as u64,
        black_wins: outcome_count(g, 2) as u64,
        truncated: no_result_count(g) as u64,
        trainable_positions: result_plies_of(g) as u64,
        trainable_games: (g.len() - no_result_count(g)) as u64,
    }
}

proof fn lemma_counts_bounded(g: Seq<GameRecord>)
    ensures
        outcome_count(g, 0) + outcome_count(g, 1) + outcome_count(g, 2) + no_result_count(g) == g.len(),
        result_plies_of(g) <= plies_of(g),
    decreases g.len(),
{
    if g.len() > 0 {
        lemma_counts_bounded(g.drop_last());
    }
}

proof fn lemma_plies_prefix(g: Seq<GameRecord>, j: int)
    requires
        0 <= j <= g.len(),
    ensures
        plies_of(g.take(j)) <= plies_of(g),
    decreases g.len() - j,
{
    if j < g.len() {
        lemma_plies_prefix(g, j + 1);
        assert(g.take(j + 1).drop_last() =~= g.take(j));
    } else {
        assert(g.take(j) =~= g);
    }
}

/// The result counts of a collection count games by outcome code: white
/// wins are the games whose outcome is 0 (White won), draws those whose
/// outcome is 1, black wins those whose outcome is 2, and truncated games
/// those with no outcome code among these; so a collection whose
/// games White all won has as many white wins as games and no black wins.
pub proof fn lemma_results_counted_by_outcome(g: Seq<GameRecord>)
    requires
        g.len() <= u64::MAX,
    ensures
        counts_spec(g).white_wins == g.filter(|r: GameRecord| r.outcome == Some(0u8)).len(),
        counts_spec(g).draws == g.filter(|r: GameRecord| r.outcome == Some(1u8)).len(),
        counts_spec(g).black_wins == g.filter(|r: GameRecord| r.outcome == Some(2u8)).len(),
        counts_spec(g).truncated == g.filter(
            |r: GameRecord| r.outcome != Some(0u8) && r.outcome != Some(1u8) && r.outcome != Some(2u8),
        ).len(),
        counts_spec(g).games == g.len(),
        (forall|q: int| 0 <= q < g.len() ==> (#[trigger] g[q]).outcome == Some(0u8)) ==> counts_spec(g).white_wins
            == g.len() && counts_spec(g).black_wins == 0 && counts_spec(g).draws == 0,
{
    lemma_outcome_count_is_filter(g, 0);
    lemma_outcome_count_is_filter(g, 1);
    lemma_outcome_count_is_filter(g, 2);
    lemma_no_result_count_is_filter(g);
    lemma_counts_bounded(g);
    if forall|q: int| 0 <= q < g.len() ==> (#[trigger] g[q]).outcome == Some(0u8) {
        lemma_uniform_outcome(g);
    }
}

proof fn lemma_uniform_outcome(g: Seq<GameRecord>)
    requires
        forall|q: int| 0 <= q < g.len() ==> (#[trigger] g[q]).outcome == Some(0u8),
    ensures
        outcome_count(g, 0) == g.len(),
        outcome_count(g, 1) == 0,
        outcome_count(g, 2) == 0,
    decreases g.len(),
{
    if g.len() > 0 {
        let h = g.drop_last();
        assert forall|q: int| 0 <= q < h.len() implies (#[trigger] h[q]).outcome == Some(0u8) by {
            assert(h[q] == g[q]);
        }
        lemma_uniform_outcome(h);
        assert(g[g.len() - 1].outcome == Some(0u8));
    }
}

proof fn lemma_no_result_count_is_filter(g: Seq<GameRecord>)
    ensures
        no_result_count(g) == g.filter(
            |r: GameRecord| r.outcome != Some(0u8) && r.outcome != Some(1u8) && r.outcome != Some(2u8),
        ).len(),
    decreases g.len(),
{
    reveal(Seq::filter);
    if g.len() > 0 {
        lemma_no_result_count_is_filter(g.drop_last());
    }
}

proof fn lemma_outcome_count_is_filter(g: Seq<GameRecord>, code: u8)
    ensures
        outcome_count(g, code) == g.filter(|r: GameRecord| r.outcome == Some(code)).len(),
    decreases g.len(),
{
    reveal(Seq::filter);
    if g.len() > 0 {
        lemma_outcome_count_is_filter(g.drop_last(), code);
    }
}

/// Count a collection's games, plies and results. Every game is exactly one
/// of a white win, a draw, a black win, or truncated.
pub fn selfplay_counts(records: &Vec<GameRecord>) -> (c: SelfPlayCounts)
    requires
        plies_of(records@) <= u64::MAX,
    ensures
        c == counts_spec(records@),
        c.white_wins == records@.filter(|r: GameRecord| r.outcome == Some(0u8)).len(),
        c.draws == records@.filter(|r: GameRecord| r.outcome == Some(1u8)).len(),
        c.black_wins == records@.filter(|r: GameRecord| r.outcome == Some(2u8)).len(),
        c.white_wins + c.draws + c.black_wins + c.truncated == c.games,
        c.trainable_games + c.truncated == c.games,
        c.trainable_positions <= c.plies,
{
    proof {
        lemma_counts_bounded(records@);
        assert(records@.len() == records.len());
        lemma_results_counted_by_outcome(records@);
    }
    let mut c = SelfPlayCounts {
        games: 0,
        plies: 0,
        white_wins: 0,
        draws: 0,
        black_wins: 0,
        truncated: 0,
        trainable_positions: 0,
        trainable_games: 0,
    };
    let mut i: usize = 0;
    while i < records.len()
        invariant
            i <= records@.len(),
            plies_of(records@) <= u64::MAX,
            c.games == i,
            c.plies == plies_of(records@.take(i as int)),
            c.white_wins == outcome_count(records@.take(i as int), 0),
            c.draws == outcome_count(records@.take(i as int), 1),
            c.black_wins == outcome_count(records@.take(i as int), 2),
            c.truncated == no_result_count(records@.take(i as int)),
            c.trainable_positions == result_plies_of(records@.take(i as int)),
        decreases records.len() - i,
    {
        let ghost t = records@.take(i + 1);
        assert(t.drop_last() =~= records@.take(i as int));
        proof {
            lemma_plies_prefix(records@, i + 1);
            lemma_counts_bounded(t);
        }
        let g = &records[i];
        let n = g.plies.len() as u64;
        c.games = c.games + 1;
        c.plies = c.plies + n;
        match g.outcome {
            Some(0) => {
                c.white_wins = c.white_wins + 1;
            },
            Some(1) => {
                c.draws = c.draws + 1;
            },
            Some(2) => {
                c.black_wins = c.black_wins + 1;
            },
            _ => {
                c.truncated = c.truncated + 1;
            },
        }
        if g.outcome.is_some() {
            c.trainable_positions = c.trainable_positions + n;
        }
        i = i + 1;
    }
    assert(records@.take(i as int) =~= records@);
    c.trainable_games = c.games - c.truncated;
    c
}

/// Games of `g` whose termination label is `label`.
pub open spec fn label_tally(g: Seq<GameRecord>, label: Seq<char>) -> nat
    decreases g.len(),
{
    if g.len() == 0 {
        0
    } else {
        label_tally(g.drop_last(), label) + if g.last().termination@ == label { 1nat } else { 0 }
    }
}

/// The labels as character strings.
pub open spec fn label_views(labels: Seq<String>) -> Seq<Seq<char>> {
    labels.map_values(|s: String| s@)
}

/// Strictly increasing in the order of `chars_lt`, hence without repeats.
pub open spec fn strictly_sorted(k: Seq<Seq<char>>) -> bool {
    forall|i: int, j: int| 0 <= i < j < k.len() ==> chars_lt(#[trigger] k[i], #[trigger] k[j])
}

/// Games of a collection per termination label, in label order: one entry
/// per distinct label, with its game count.
#[derive(Debug, Clone, PartialEq, Eq)]
pub struct TerminationTally {
    pub labels: Vec<String>,
    pub counts: Vec<u64>,
}

/// What a tally of `g` is: labels in strictly increasing order, each
/// counted by how many games carry it, and every game's label present.
pub open spec fn tally_of(labels: Seq<String>, counts: Seq<u64>, g: Seq<GameRecord>) -> bool {
    &&& labels.len() == counts.len()
    &&& strictly_sorted(label_views(labels))
    &&& forall|i: int| 0 <= i < labels.len() ==> #[trigger] counts[i] == label_tally(g, labels[i]@) && counts[i] > 0
    &&& forall|q: int| 0 <= q < g.len() ==> label_views(labels).contains(#[trigger] g[q].termination@)
}

proof fn lemma_label_tally_le(g: Seq<GameRecord>, label: Seq<char>)
    ensures
        label_tally(g, label) <= g.len(),
    decreases g.len(),
{
    if g.len() > 0 {
        lemma_label_tally_le(g.drop_last(), label);
    }
}

proof fn lemma_label_tally_absent(g: Seq<GameRecord>, label: Seq<char>)
    requires
        forall|q: int| 0 <= q < g.len() ==> (#[trigger] g[q]).termination@ != label,
    ensures
        label_tally(g, label) == 0,
    decreases g.len(),
{
    if g.len() > 0 {
        let h = g.drop_last();
        assert forall|q: int| 0 <= q < h.len() implies (#[trigger] h[q]).termination@ != label by {
            assert(h[q] == g[q]);
        }
        lemma_label_tally_absent(h, label);
        assert(g[g.len() - 1].termination@ != label);
    }
}

/// Count a collection's games per termination label, in label order; every
/// game is counted exactly once, under its own label.
pub fn termination_counts(records: &Vec<GameRecord>) -> (t: TerminationTally)
    ensures
        tally_of(t.labels@, t.counts@, records@),
{
    let mut labels: Vec<String> = Vec::new();
    let mut counts: Vec<u64> = Vec::new();
    let mut r: usize = 0;
    while r < records.len()
        invariant
            r <= records@.len(),
            tally_of(labels@, counts@, records@.take(r as int)),
        decreases records.len() - r,
    {
        let ghost p = records@.take(r as int);
        let ghost p1 = records@.take(r + 1);
        assert(p1.drop_last() =~= p);
        assert forall|q: int| 0 <= q < p.len() implies p1[q] == #[trigger] p[q] by {}
        let label = &records[r].termination;
        let ghost lv = label@;
        assert(p1.last().termination@ == lv);
        let ghost old_keys = label_views(labels@);
        let mut j: usize = 0;
        while j < labels.len() && str_less(labels[j].as_str(), label.as_str())
            invariant
                j <= labels@.len(),
                label@ == lv,
                forall|i: int| 0 <= i < j ==> chars_lt(#[trigger] labels@[i]@, lv),
            decreases labels.len() - j,
        {
            j = j + 1;
        }
        proof {
            lemma_label_tally_le(p, lv);
        }
        if j < labels.len() && str_equal(labels[j].as_str(), label.as_str()) {
            proof {
                lemma_label_tally_le(p, labels@[j as int]@);
            }
            let c = counts[j] + 1;
            counts.set(j, c);
            proof {
                assert forall|i: int| 0 <= i < labels@.len() implies #[trigger] counts@[i] == label_tally(
                    p1,
                    labels@[i]@,
                ) && counts@[i] > 0 by {
                    if i != j {
                        assert(old_keys[i] == labels@[i]@ && old_keys[j as int] == labels@[j as int]@);
                        if i < j {
                            assert(chars_lt(old_keys[i], old_keys[j as int]));
                        } else {
                            assert(chars_lt(old_keys[j as int], old_keys[i]));
                        }
                        lemma_chars_lt_asymmetric(labels@[i]@, lv);
                    }
                }
                assert forall|q: int| 0 <= q < p1.len() implies label_views(labels@).contains(
                    #[trigger] p1[q].termination@,
                ) by {
                    if q == p.len() {
                        assert(label_views(labels@)[j as int] == lv);
                    } else {
                        assert(p1[q] == p[q]);
                    }
                }
            }
        } else {
            proof {
                // the label is new: strictly between its neighbours
                if j < labels@.len() {
                    assert(labels@[j as int]@ != lv);
                    lemma_chars_lt_total(labels@[j as int]@, lv);
                }
                assert forall|q: int| 0 <= q < p.len() implies (#[trigger] p[q]).termination@ != lv by {
                    if p[q].termination@ == lv {
                        assert(old_keys.contains(lv));
                        let i = choose|i: int| 0 <= i < old_keys.len() && old_keys[i] == lv;
                        lemma_chars_lt_asymmetric(lv, lv);
                        if i < j {
                            assert(chars_lt(labels@[i]@, lv));
                        } else if i > j {
                            assert(chars_lt(old_keys[j as int], old_keys[i]));
                            lemma_chars_lt_asymmetric(old_keys[j as int], lv);
                        }
                    }
                }
                lemma_label_tally_absent(p, lv);
            }
            let ghost old_labels = labels@;
            let ghost old_counts = counts@;
            labels.insert(j, label.clone());
            counts.insert(j, 1);
            proof {
                let keys = label_views(labels@);
                assert(keys =~= old_keys.insert(j as int, lv));
                assert forall|a: int, b: int| 0 <= a < b < keys.len() implies chars_lt(
                    #[trigger] keys[a],
                    #[trigger] keys[b],
                ) by {
                    if a < j && b < j {
                        assert(chars_lt(old_keys[a], old_keys[b]));
                    } else if a < j && b == j {
                        assert(chars_lt(old_labels[a]@, lv));
                    } else if a < j && b > j {
                        assert(chars_lt(old_keys[a], old_keys[b - 1]));
                    } else if a == j {
                        if b - 1 > j {
                            assert(chars_lt(old_keys[j as int], old_keys[b - 1]));
                            lemma_chars_lt_transitive(lv, old_keys[j as int], old_keys[b - 1]);
                        }
                    } else {
                        assert(chars_lt(old_keys[a - 1], old_keys[b - 1]));
                    }
                }
                assert forall|i: int| 0 <= i < labels@.len() implies #[trigger] counts@[i] == label_tally(
                    p1,
                    labels@[i]@,
                ) && counts@[i] > 0 by {
                    if i != j {
                        let k = if i < j { i } else { i - 1 };
                        assert(labels@[i] == old_labels[k] && counts@[i] == old_counts[k]);
                        assert(old_keys[k] == old_labels[k]@);
                        if k < j {
                            lemma_chars_lt_asymmetric(old_labels[k]@, lv);
                            assert(chars_lt(old_labels[k]@, lv));
                        } else {
                            if k > j {
                                assert(chars_lt(old_keys[j as int], old_keys[k]));
                                lemma_chars_lt_transitive(lv, old_keys[j as int], old_keys[k]);
                            }
                            lemma_chars_lt_asymmetric(lv, old_labels[k]@);
                        }
                    }
                }
                assert forall|q: int| 0 <= q < p1.len() implies keys.contains(#[trigger] p1[q].termination@) by {
                    if q == p.len() {
                        assert(keys[j as int] == lv);
                    } else {
                        assert(p1[q] == p[q]);
                        assert(old_keys.contains(p[q].termination@));
                        let i = choose|i: int| 0 <= i < old_keys.len() && old_keys[i] == p[q].termination@;
                        if i < j {
                            assert(keys[i] == old_keys[i]);
                        } else {
                            assert(keys[i + 1] == old_keys[i]);
                        }
                    }
                }
            }
        }
        r = r + 1;
    }
    assert(records@.take(r as int) =~= records@);
    TerminationTally { labels, counts }
}

/// Failed games of a parallel collection: how many failed, and the first
/// (up to four) failure messages, in the order they were gathered.
#[derive(Debug, Clone, PartialEq, Eq)]
pub struct CollectionFailure {
    pub count: usize,
    pub first: Vec<String>,
}

/// A collection succeeds only when no game failed; otherwise it fails with
/// the number of failures and the first four messages.
pub fn collection_result(failures: &Vec<String>) -> (r: Result<(), CollectionFailure>)
    ensures
        failures@.len() == 0 <==> r is Ok,
        r matches Err(f) ==> f.count == failures@.len() && f.first@ == failures@.take(
            if failures@.len() < 4 { failures@.len() as int } else { 4 },
        ),
{
    if failures.len() == 0 {
        return Ok(());
    }
    let keep: usize = if failures.len() < 4 { failures.len() } else { 4 };
    let mut first: Vec<String> = Vec::new();
    let mut i: usize = 0;
    while i < keep
        invariant
            keep <= failures@.len(),
            i <= keep,
            first@ == failures@.take(i as int),
        decreases keep - i,
    {
        first.push(failures[i].clone());
        assert(first@ =~= failures@.take(i + 1));
        i = i + 1;
    }
    Err(CollectionFailure { count: failures.len(), first })
}

/// What one self-play worker handed back: its games and its failure
/// messages, or `None` when the worker panicked.
pub type WorkerOutput = Option<(Vec<GameRecord>, Vec<String>)>;

/// The games of the workers' outputs, worker by worker.
pub open spec fn gathered_records(o: Seq<WorkerOutput>) -> Seq<GameRecord>
    decreases o.len(),
{
    if o.len() == 0 {
        Seq::empty()
    } else {
        gathered_records(o.drop_last()) + match o.last() {
            Some(w) => w.0@,
            None => Seq::empty(),
        }
    }
}

/// The failure messages of the workers' outputs, worker by worker; a
/// panicked worker counts as one failure.
pub open spec fn gathered_failures(o: Seq<WorkerOutput>) -> Seq<Seq<char>>
    decreases o.len(),
{
    if o.len() == 0 {
        Seq::empty()
    } else {
        gathered_failures(o.drop_last()) + match o.last() {
            Some(w) => w.1@.map_values(|m: String| m@),
            None => seq!["self-play worker panicked"@],
        }
    }
}

/// Gather the workers' outputs of a parallel collection: every game of every
/// worker when none failed, otherwise the failure count and the first four
/// messages.
pub fn gather_collection(outputs: Vec<WorkerOutput>) -> (r: Result<Vec<GameRecord>, CollectionFailure>)
    ensures
        r is Ok <==> gathered_failures(outputs@).len() == 0,
        r matches Ok(g) ==> g@ == gathered_records(outputs@),
        r matches Err(f) ==> f.count == gathered_failures(outputs@).len() && f.first@.map_values(
            |m: String| m@,
        ) == gathered_failures(outputs@).take(
            if gathered_failures(outputs@).len() < 4 { gathered_failures(outputs@).len() as int } else { 4 },
        ),
{
    let ghost all = outputs@;
    assert(all.len() == outputs.len());
    let mut rest = outputs;
    let mut records: Vec<GameRecord> = Vec::new();
    let mut failures: Vec<String> = Vec::new();
    let mut i: usize = 0;
    while rest.len() > 0
        invariant
            i <= all.len(),
            all.len() <= usize::MAX,
            rest@ == all.skip(i as int),
            records@ == gathered_records(all.take(i as int)),
            failures@.map_values(|m: String| m@) == gathered_failures(all.take(i as int)),
        decreases rest.len(),
    {
        let w = rest.remove(0);
        assert(all.take(i + 1).drop_last() =~= all.take(i as int));
        assert(all.take(i + 1).last() == all[i as int]);
        let ghost before = failures@;
        match w {
            Some((mut v, mut f)) => {
                records.append(&mut v);
                failures.append(&mut f);
                proof {
                    assert(failures@.map_values(|m: String| m@) =~= before.map_values(|m: String| m@)
                        + all[i as int]->Some_0.1@.map_values(|m: String| m@));
                }
            },
            None => {
                failures.push("self-play worker panicked".to_owned());
                proof {
                    assert(failures@.map_values(|m: String| m@) =~= before.map_values(|m: String| m@)
                        + seq!["self-play worker panicked"@]);
                }
            },
        }
        assert(rest@ =~= all.skip(i + 1));
        i = i + 1;
    }
    assert(all.take(i as int) =~= all);
    match collection_result(&failures) {
        Ok(()) => Ok(records),
        Err(f) => {
            proof {
                let n = failures@.len() as int;
                let k = if n < 4 { n } else { 4 };
                assert(f.first@.map_values(|m: String| m@) =~= failures@.map_values(|m: String| m@).take(k));
            }
            Err(f)
        },
    }
}

proof fn lemma_gathered_counts(o: Seq<WorkerOutput>)
    ensures
        gathered_records(o).len() + gathered_failures(o).len() == outcomes_of(o),
    decreases o.len(),
{
    if o.len() > 0 {
        lemma_gathered_counts(o.drop_last());
    }
}

/// The games a collection played: each worker's games and failures, and one
/// for a worker that panicked.
pub open spec fn outcomes_of(o: Seq<WorkerOutput>) -> nat
    decreases o.len(),
{
    if o.len() == 0 {
        0
    } else {
        outcomes_of(o.drop_last()) + match o.last() {
            Some(w) => w.0@.len() + w.1@.len(),
            None => 1nat,
        }
    }
}

/// A collection that played all of its games without a failure returns all
/// of them: when the workers' outputs account for `games_total` games and no
/// game failed, gathering succeeds with exactly `games_total` games; and any
/// failed game makes gathering fail.
pub proof fn lemma_complete_collection_returns_every_game(o: Seq<WorkerOutput>, games_total: nat)
    requires
        outcomes_of(o) == games_total,
    ensures
        gathered_failures(o).len() == 0 ==> gathered_records(o).len() == games_total,
        gathered_failures(o).len() > 0 ==> gathered_records(o).len() < games_total,
{
    lemma_gathered_counts(o);
}

/// Where a single bounded run checks whether to stop early.
#[derive(Debug, Clone, Copy, PartialEq, Eq, Structural)]
pub enum RunPoint {
    BeforeCollect,
    AfterCollect,
    AfterAudit,
}

/// Why a single bounded run stopped early.
#[derive(Debug, Clone, Copy, PartialEq, Eq, Structural)]
pub enum RunStop {
    /// Cancelled before any game was collected.
    CancelledBeforeCollect,
    /// Cancelled while collecting; the games collected are published.
    CancelledDuringCollect,
    /// The collected replay did not audit clean.
    AuditFailed,
}

/// Whether a run stops at `point`: on cancellation before and after
/// collection, and on a failed audit after the audit.
pub fn run_stop(point: RunPoint, cancelled: bool, audit_ok: bool) -> (r: Option<RunStop>)
    ensures
        r == (match point {
            RunPoint::BeforeCollect => if cancelled { Some(RunStop::CancelledBeforeCollect) } else { None },
            RunPoint::AfterCollect => if cancelled { Some(RunStop::CancelledDuringCollect) } else { None },
            RunPoint::AfterAudit => if audit_ok { None } else { Some(RunStop::AuditFailed) },
        }),
{
    match point {
        RunPoint::BeforeCollect => if cancelled { Some(RunStop::CancelledBeforeCollect) } else { None },
        RunPoint::AfterCollect => if cancelled { Some(RunStop::CancelledDuringCollect) } else { None },
        RunPoint::AfterAudit => if audit_ok { None } else { Some(RunStop::AuditFailed) },
    }
}

/// The status a run records: interrupted when cancelled, failed on a failed
/// audit, completed when it ran to the end.
pub fn run_status(stop: Option<RunStop>) -> (r: RunStatus)
    ensures
        r == (match stop {
            None => RunStatus::Completed,
            Some(RunStop::AuditFailed) => RunStatus::Failed,
            Some(_) => RunStatus::Interrupted,
        }),
{
    match stop {
        None => RunStatus::Completed,
        Some(RunStop::AuditFailed) => RunStatus::Failed,
        Some(_) => RunStatus::Interrupted,
    }
}

/// Games of one collection: the games at indices `i != j` get distinct
/// global ids and distinct seeds, each seed is the run seed plus the game's
/// id, and without wrap-around a game's id lies in `[game_id_base,
/// game_id_base + games)`.
pub proof fn lemma_collection_ids_and_seeds(game_id_base: u64, base_seed: u64, games: u64, i: u64, j: u64)
    requires
        i < games,
        j < games,
        i != j,
    ensures
        game_id_base.wrapping_add(i) != game_id_base.wrapping_add(j),
        game_seed_spec(base_seed, game_id_base.wrapping_add(i)) != game_seed_spec(base_seed, game_id_base.wrapping_add(j)),
        game_seed_spec(base_seed, game_id_base.wrapping_add(i)) == base_seed.wrapping_add(game_id_base.wrapping_add(i)),
        game_id_base + games <= u64::MAX ==> game_id_base <= game_id_base.wrapping_add(i) < game_id_base + games,
{
    assert(game_id_base.wrapping_add(i) != game_id_base.wrapping_add(j)) by (bit_vector)
        requires
            i != j,
    ;
    lemma_distinct_games_distinct_seeds(base_seed, game_id_base.wrapping_add(i), game_id_base.wrapping_add(j));
    if game_id_base + games <= u64::MAX {
        assert(game_id_base.wrapping_add(i) == game_id_base + i) by (bit_vector)
            requires
                game_id_base as int + i as int <= u64::MAX,
        ;
    }
}

} // verus!
