//! Replay audit: verify every game's integrity, legality, probability
//! alignment, outcome perspective and provenance.
//!
//! Legality and termination are judged by the rules engine: a game is
//! replayed from its start position and, at every ply, the engine reports the
//! legal action indices, the side to move, whether the recorded action index
//! is a valid action and whether the move applied. Those reports
//! ([`GameFacts`]) are the audit's input beside the record; the audit decides
//! every error from them. The floating-point check that a ply's target sums
//! to one (within `1e-3`) also arrives as a reported fact.

use vstd::prelude::*;

use std::collections::{BTreeSet, HashSet};

use crate::replay::schema::GameRecord;
use crate::rules::{
    from_label_spec, is_result_spec, termination_from_label, Color, Termination,
};

verus! {

/// What the rules engine reported at the position before one ply.
#[derive(Debug, Clone, PartialEq, Eq)]
pub struct PlyFacts {
    /// Legal action indices at the position.
    pub legal: Vec<u32>,
    /// Side to move at the position.
    pub side_to_move: Color,
    /// The ply's target probabilities sum to one within `1e-3`.
    pub target_sum_ok: bool,
    /// The `f32` bits of that sum, for the report.
    pub target_sum_bits: u32,
    /// The recorded selected index decodes to an action.
    pub selected_index_valid: bool,
    /// Applying the selected action to the position succeeded.
    pub applied: bool,
}

/// What replaying one game reported.
#[derive(Debug, Clone, PartialEq, Eq)]
pub struct GameFacts {
    /// The start FEN parsed.
    pub start_ok: bool,
    /// One report per recorded ply; reports after a ply that failed are not
    /// read.
    pub plies: Vec<PlyFacts>,
    /// Termination at the final position.
    pub end_termination: Option<Termination>,
    /// Side to move at the final position.
    pub end_side_to_move: Color,
}

/// One audit finding.
#[derive(Debug, Clone, PartialEq, Eq)]
pub enum AuditError {
    DuplicateGameId { game_id: u64 },
    ZeroBudget { game_id: u64 },
    NoPlies { game_id: u64 },
    UnknownTermination { game_id: u64, label: String },
    ResultWithoutOutcome { game_id: u64 },
    OutcomeWithoutResult { game_id: u64 },
    BadStartFen { game_id: u64 },
    SelectedNotLegal { game_id: u64, ply: usize },
    EmptyTarget { game_id: u64, ply: usize },
    TargetNotLegal { game_id: u64, ply: usize, action: u16 },
    BadTargetProb { game_id: u64, ply: usize, prob_bits: u32 },
    TargetSum { game_id: u64, ply: usize, sum_bits: u32 },
    SideToMoveMismatch { game_id: u64, ply: usize },
    InvalidActionIndex { game_id: u64, ply: usize },
    IllegalMove { game_id: u64, ply: usize },
    TerminationMismatch { game_id: u64, actual: Option<Termination>, recorded: Termination },
    CheckmateOutcome { game_id: u64, outcome: Option<u8>, expected: u8 },
    NonCheckmateNotDraw { game_id: u64 },
    ShardGameCount { file: String, actual: u64, manifest: u64 },
    ShardUnreadable { file: String, reason: String },
}

/// Result of an audit. `errors` is empty iff the replay is clean.
#[derive(Debug, Clone, PartialEq, Eq)]
pub struct AuditReport {
    pub shards: usize,
    pub games: usize,
    pub plies: u64,
    pub errors: Vec<AuditError>,
}

impl AuditReport {
    /// True iff no finding was recorded.
    pub fn ok(&self) -> (r: bool)
        ensures
            r == (self.errors@.len() == 0),
    {
        self.errors.len() == 0
    }
}

/// A probability (as `f32` bits) that is NaN, infinite or negative.
pub open spec fn bad_prob_bits(b: u32) -> bool {
    ((b >> 23u32) & 0xffu32) == 0xffu32 || ((b >> 31u32) == 1u32 && (b & 0x7fff_ffffu32) != 0u32)
}

/// Which `f32` bit patterns a target probability may have: every negative
/// number (sign bit set, non-zero magnitude, up to and including negative
/// infinity and NaN) is bad, every infinity or NaN is bad, and every
/// non-negative finite number, negative zero included, is fine.
pub proof fn lemma_prob_bits_classified(b: u32)
    ensures
        b > 0x8000_0000u32 ==> bad_prob_bits(b),
        0x7F80_0000u32 <= b < 0x8000_0000u32 ==> bad_prob_bits(b),
        b < 0x7F80_0000u32 ==> !bad_prob_bits(b),
        b == 0x8000_0000u32 ==> !bad_prob_bits(b),
{
    assert(b > 0x8000_0000u32 ==> (((b >> 23u32) & 0xffu32) == 0xffu32 || ((b >> 31u32) == 1u32 && (b
        & 0x7fff_ffffu32) != 0u32))) by (bit_vector);
    assert(0x7F80_0000u32 <= b < 0x8000_0000u32 ==> ((b >> 23u32) & 0xffu32) == 0xffu32) by (bit_vector);
    assert(b < 0x7F80_0000u32 ==> !(((b >> 23u32) & 0xffu32) == 0xffu32 || ((b >> 31u32) == 1u32 && (b
        & 0x7fff_ffffu32) != 0u32))) by (bit_vector);
    assert(b == 0x8000_0000u32 ==> !(((b >> 23u32) & 0xffu32) == 0xffu32 || ((b >> 31u32) == 1u32 && (b
        & 0x7fff_ffffu32) != 0u32))) by (bit_vector);
}

/// Every target entry from `k` on whose probability is negative (non-zero)
/// or not finite gets a `BadTargetProb` finding naming its bits.
pub proof fn lemma_bad_target_prob_reported(g: GameRecord, i: int, legal: Seq<u32>, k: nat, j: int)
    requires
        0 <= i < g.plies@.len(),
        k <= j < g.plies@[i].target@.len(),
        g.plies@[i].target@[j].1 >= 0x7F80_0000u32,
        g.plies@[i].target@[j].1 != 0x8000_0000u32,
    ensures
        target_errors(g, i, legal, k).contains(
            AuditError::BadTargetProb { game_id: g.game_id, ply: i as usize, prob_bits: g.plies@[i].target@[j].1 },
        ),
    decreases j - k,
{
    let t = g.plies@[i].target@;
    let (a, p) = t[k as int];
    let e1 = if legal.contains(a as u32) {
        Seq::<AuditError>::empty()
    } else {
        seq![AuditError::TargetNotLegal { game_id: g.game_id, ply: i as usize, action: a }]
    };
    let e2 = if bad_prob_bits(p) {
        seq![AuditError::BadTargetProb { game_id: g.game_id, ply: i as usize, prob_bits: p }]
    } else {
        Seq::<AuditError>::empty()
    };
    let rest = target_errors(g, i, legal, k + 1);
    assert(target_errors(g, i, legal, k) == e1 + e2 + rest);
    let want = AuditError::BadTargetProb { game_id: g.game_id, ply: i as usize, prob_bits: t[j].1 };
    if j == k {
        lemma_prob_bits_classified(p);
        assert((e1 + e2 + rest)[e1.len() as int] == want);
    } else {
        lemma_bad_target_prob_reported(g, i, legal, k + 1, j);
        let w = choose|w: int| 0 <= w < rest.len() && rest[w] == want;
        assert((e1 + e2 + rest)[e1.len() + e2.len() + w] == want);
    }
}

/// A ply whose selected action is legal reports every bad target
/// probability among its findings.
pub proof fn lemma_ply_reports_bad_target_prob(g: GameRecord, f: GameFacts, i: int, j: int)
    requires
        0 <= i < g.plies@.len(),
        i < f.plies@.len(),
        f.plies@[i].legal@.contains(g.plies@[i].selected as u32),
        0 <= j < g.plies@[i].target@.len(),
        g.plies@[i].target@[j].1 >= 0x7F80_0000u32,
        g.plies@[i].target@[j].1 != 0x8000_0000u32,
    ensures
        ply_findings(g, f, i).0.contains(
            AuditError::BadTargetProb { game_id: g.game_id, ply: i as usize, prob_bits: g.plies@[i].target@[j].1 },
        ),
{
    let want = AuditError::BadTargetProb { game_id: g.game_id, ply: i as usize, prob_bits: g.plies@[i].target@[j].1 };
    let ply = g.plies@[i];
    let p = f.plies@[i];
    let id = g.game_id;
    lemma_bad_target_prob_reported(g, i, p.legal@, 0, j);
    let te = target_errors(g, i, p.legal@, 0);
    let w = choose|w: int| 0 <= w < te.len() && te[w] == want;
    let a = if ply.target@.len() == 0 {
        seq![AuditError::EmptyTarget { game_id: id, ply: i as usize }]
    } else {
        Seq::<AuditError>::empty()
    };
    let c = if p.target_sum_ok {
        Seq::<AuditError>::empty()
    } else {
        seq![AuditError::TargetSum { game_id: id, ply: i as usize, sum_bits: p.target_sum_bits }]
    };
    let d = if side_code(p.side_to_move) != ply.side_to_move {
        seq![AuditError::SideToMoveMismatch { game_id: id, ply: i as usize }]
    } else {
        Seq::<AuditError>::empty()
    };
    let e = a + te + c + d;
    assert(e[a.len() + w] == want);
    if !p.selected_index_valid {
        assert(e.push(AuditError::InvalidActionIndex { game_id: id, ply: i as usize })[a.len() + w] == want);
    } else if !p.applied {
        assert(e.push(AuditError::IllegalMove { game_id: id, ply: i as usize })[a.len() + w] == want);
    }
}

/// The board side code recorded in plies: 0 White, 1 Black.
pub open spec fn side_code(c: Color) -> u8 {
    if c == Color::White { 0 } else { 1 }
}

/// Target findings for entries `k..` of ply `i`.
pub open spec fn target_errors(g: GameRecord, i: int, legal: Seq<u32>, k: nat) -> Seq<AuditError>
    decreases g.plies@[i].target@.len() - k,
{
    let t = g.plies@[i].target@;
    if k >= t.len() {
        Seq::empty()
    } else {
        let (a, p) = t[k as int];
        let e1 = if legal.contains(a as u32) {
            Seq::empty()
        } else {
            seq![AuditError::TargetNotLegal { game_id: g.game_id, ply: i as usize, action: a }]
        };
        let e2 = if bad_prob_bits(p) {
            seq![AuditError::BadTargetProb { game_id: g.game_id, ply: i as usize, prob_bits: p }]
        } else {
            Seq::empty()
        };
        e1 + e2 + target_errors(g, i, legal, k + 1)
    }
}

/// Findings of ply `i`, and whether the audit of the game stops there.
pub open spec fn ply_findings(g: GameRecord, f: GameFacts, i: int) -> (Seq<AuditError>, bool) {
    let ply = g.plies@[i];
    let p = f.plies@[i];
    let id = g.game_id;
    if !p.legal@.contains(ply.selected as u32) {
        (seq![AuditError::SelectedNotLegal { game_id: id, ply: i as usize }], true)
    } else {
        let e = (if ply.target@.len() == 0 {
            seq![AuditError::EmptyTarget { game_id: id, ply: i as usize }]
        } else {
            Seq::empty()
        }) + target_errors(g, i, p.legal@, 0) + (if p.target_sum_ok {
            Seq::empty()
        } else {
            seq![AuditError::TargetSum { game_id: id, ply: i as usize, sum_bits: p.target_sum_bits }]
        }) + (if side_code(p.side_to_move) != ply.side_to_move {
            seq![AuditError::SideToMoveMismatch { game_id: id, ply: i as usize }]
        } else {
            Seq::empty()
        });
        if !p.selected_index_valid {
            (e.push(AuditError::InvalidActionIndex { game_id: id, ply: i as usize }), true)
        } else if !p.applied {
            (e.push(AuditError::IllegalMove { game_id: id, ply: i as usize }), true)
        } else {
            (e, false)
        }
    }
}

/// Findings of plies `i..`, plies visited, and whether every ply applied.
pub open spec fn plies_from(g: GameRecord, f: GameFacts, i: nat) -> (Seq<AuditError>, nat, bool)
    decreases g.plies@.len() - i,
{
    if i >= g.plies@.len() {
        (Seq::empty(), 0, true)
    } else {
        let (e, stop) = ply_findings(g, f, i as int);
        if stop {
            (e, 1, false)
        } else {
            let (r, c, ok) = plies_from(g, f, i + 1);
            (e + r, c + 1, ok)
        }
    }
}

/// Findings at the final position of a game with a chess result.
pub open spec fn end_findings(g: GameRecord, f: GameFacts, t: Termination) -> Seq<AuditError> {
    let e1 = if f.end_termination != Some(t) {
        seq![AuditError::TerminationMismatch { game_id: g.game_id, actual: f.end_termination, recorded: t }]
    } else {
        Seq::empty()
    };
    let expected: u8 = if f.end_side_to_move == Color::White { 2 } else { 0 };
    let e2 = if t == Termination::Checkmate && g.outcome != Some(expected) {
        seq![AuditError::CheckmateOutcome { game_id: g.game_id, outcome: g.outcome, expected }]
    } else {
        Seq::empty()
    };
    let e3 = if t != Termination::Checkmate && g.outcome != Some(1u8) {
        seq![AuditError::NonCheckmateNotDraw { game_id: g.game_id }]
    } else {
        Seq::empty()
    };
    e1 + e2 + e3
}

/// Findings before the plies are replayed, and the recorded termination
/// when the audit goes on to the plies.
pub open spec fn header_findings(g: GameRecord, f: GameFacts) -> (Seq<AuditError>, Option<Termination>) {
    let id = g.game_id;
    let e0 = if g.search.simulations == 0 {
        seq![AuditError::ZeroBudget { game_id: id }]
    } else {
        Seq::empty()
    };
    if g.plies@.len() == 0 {
        (e0.push(AuditError::NoPlies { game_id: id }), None)
    } else {
        match from_label_spec(g.termination@) {
            None => (e0.push(AuditError::UnknownTermination { game_id: id, label: g.termination }), None),
            Some(t) => {
                let e1 = e0 + (if is_result_spec(t) && g.outcome is None {
                    seq![AuditError::ResultWithoutOutcome { game_id: id }]
                } else {
                    Seq::empty()
                }) + (if !is_result_spec(t) && g.outcome is Some {
                    seq![AuditError::OutcomeWithoutResult { game_id: id }]
                } else {
                    Seq::empty()
                });
                if !f.start_ok {
                    (e1.push(AuditError::BadStartFen { game_id: id }), None)
                } else {
                    (e1, Some(t))
                }
            },
        }
    }
}

/// Findings of one game and plies visited.
pub open spec fn audit_game_spec(g: GameRecord, f: GameFacts) -> (Seq<AuditError>, nat) {
    let (e, go) = header_findings(g, f);
    match go {
        None => (e, 0),
        Some(t) => {
            let (pe, n, ok) = plies_from(g, f, 0);
            if ok && is_result_spec(t) {
                (e + pe + end_findings(g, f, t), n)
            } else {
                (e + pe, n)
            }
        },
    }
}

proof fn lemma_clean_header(g: GameRecord, f: GameFacts)
    requires
        header_findings(g, f).0.len() == 0,
    ensures
        g.search.simulations > 0,
        g.plies@.len() > 0,
        from_label_spec(g.termination@) is Some,
        is_result_spec(from_label_spec(g.termination@)->Some_0) <==> g.outcome is Some,
        f.start_ok,
        header_findings(g, f).1 == from_label_spec(g.termination@),
{
    let id = g.game_id;
    let e0 = if g.search.simulations == 0 {
        seq![AuditError::ZeroBudget { game_id: id }]
    } else {
        Seq::<AuditError>::empty()
    };
    if g.plies@.len() > 0 {
        if let Some(t) = from_label_spec(g.termination@) {
            let a = if is_result_spec(t) && g.outcome is None {
                seq![AuditError::ResultWithoutOutcome { game_id: id }]
            } else {
                Seq::<AuditError>::empty()
            };
            let b = if !is_result_spec(t) && g.outcome is Some {
                seq![AuditError::OutcomeWithoutResult { game_id: id }]
            } else {
                Seq::<AuditError>::empty()
            };
            let e1 = e0 + a + b;
            if f.start_ok {
                assert(header_findings(g, f).0 == e1);
                assert(e1.len() == e0.len() + a.len() + b.len());
            } else {
                assert(header_findings(g, f).0 == e1.push(AuditError::BadStartFen { game_id: id }));
            }
        } else {
            assert(header_findings(g, f).0 == e0.push(AuditError::UnknownTermination { game_id: id, label: g.termination }));
        }
    } else {
        assert(header_findings(g, f).0 == e0.push(AuditError::NoPlies { game_id: id }));
    }
}

/// A game that audits clean has a search budget, at least one ply and a
/// known termination; it carries an outcome exactly when that termination is
/// a chess result (truncated and aborted games are never labelled); and a
/// clean checkmate is scored for the side that did not end up to move.
pub proof fn lemma_clean_game_is_labelled_truthfully(g: GameRecord, f: GameFacts)
    requires
        audit_game_spec(g, f).0.len() == 0,
    ensures
        g.search.simulations > 0,
        g.plies@.len() > 0,
        from_label_spec(g.termination@) is Some,
        is_result_spec(from_label_spec(g.termination@)->Some_0) <==> g.outcome is Some,
        f.start_ok,
        plies_from(g, f, 0).2 && from_label_spec(g.termination@) == Some(Termination::Checkmate)
            ==> g.outcome == Some(if f.end_side_to_move == Color::White { 2u8 } else { 0u8 }),
        plies_from(g, f, 0).2 && is_result_spec(from_label_spec(g.termination@)->Some_0)
            ==> f.end_termination == from_label_spec(g.termination@),
{
    let e = header_findings(g, f).0;
    let go = header_findings(g, f).1;
    let all = audit_game_spec(g, f).0;
    match go {
        None => {
            assert(all == e);
        },
        Some(t) => {
            let pe = plies_from(g, f, 0).0;
            let ok = plies_from(g, f, 0).2;
            if ok && is_result_spec(t) {
                let ef = end_findings(g, f, t);
                assert(all == e + pe + ef);
                assert(all.len() == e.len() + pe.len() + ef.len());
                assert(ef.len() == 0);
                let expected: u8 = if f.end_side_to_move == Color::White { 2 } else { 0 };
                if f.end_termination != Some(t) {
                    assert(ef.len() >= 1);
                }
                if t == Termination::Checkmate && g.outcome != Some(expected) {
                    assert(ef.len() >= 1);
                }
            } else {
                assert(all == e + pe);
                assert(all.len() == e.len() + pe.len());
            }
        },
    }
    lemma_clean_header(g, f);
}

/// The legal indices as an ordered set, for lookups.
fn legal_set(v: &Vec<u32>) -> (s: BTreeSet<u32>)
    ensures
        forall|x: u32| #[trigger] s@.contains(x) <==> v@.contains(x),
{
    broadcast use vstd::std_specs::btree::group_btree_axioms;
    let mut s: BTreeSet<u32> = BTreeSet::new();
    let mut i: usize = 0;
    while i < v.len()
        invariant
            i <= v@.len(),
            forall|x: u32| #[trigger] s@.contains(x) <==> v@.take(i as int).contains(x),
        decreases v.len() - i,
    {
        let ghost before = s@;
        s.insert(v[i]);
        let ghost t0 = v@.take(i as int);
        let ghost t1 = v@.take(i + 1);
        assert(t1 =~= t0.push(v@[i as int]));
        assert forall|x: u32| #[trigger] s@.contains(x) <==> t1.contains(x) by {
            if t0.contains(x) {
                let k = choose|k: int| 0 <= k < t0.len() && t0[k] == x;
                assert(t1[k] == x);
            }
            if t1.contains(x) && x != v@[i as int] {
                let k = choose|k: int| 0 <= k < t1.len() && t1[k] == x;
                assert(t0[k] == x);
            }
            if x == v@[i as int] {
                assert(t1[t0.len() as int] == x);
            }
        }
        i = i + 1;
    }
    assert(v@.take(i as int) =~= v@);
    s
}

/// True when the set `legal` holds `x`.
fn legal_contains(legal: &BTreeSet<u32>, x: u32) -> (r: bool)
    ensures
        r == legal@.contains(x),
{
    broadcast use vstd::std_specs::btree::group_btree_axioms;
    legal.contains(&x)
}

/// True when a probability's `f32` bits are NaN, infinite or negative.
pub fn is_bad_prob_bits(b: u32) -> (r: bool)
    ensures
        r == bad_prob_bits(b),
        b > 0x8000_0000u32 ==> r,
        0x7F80_0000u32 <= b < 0x8000_0000u32 ==> r,
        b < 0x7F80_0000u32 ==> !r,
        b == 0x8000_0000u32 ==> !r,
{
    proof {
        lemma_prob_bits_classified(b);
    }
    ((b >> 23u32) & 0xffu32) == 0xffu32 || ((b >> 31u32) == 1u32 && (b & 0x7fff_ffffu32) != 0u32)
}

/// Audit the target entries of ply `i` against the legal indices.
fn audit_targets(g: &GameRecord, i: usize, legal_ids: &Vec<u32>, legal: &BTreeSet<u32>, errors: &mut Vec<AuditError>)
    requires
        i < g.plies@.len(),
        forall|x: u32| #[trigger] legal@.contains(x) <==> legal_ids@.contains(x),
    ensures
        final(errors)@ == old(errors)@ + target_errors(*g, i as int, legal_ids@, 0),
{
    let ply = &g.plies[i];
    let id = g.game_id;
    let ghost start = errors@;
    let mut k: usize = 0;
    while k < ply.target.len()
        invariant
            i < g.plies@.len(),
            ply == g.plies@[i as int],
            id == g.game_id,
            k <= ply.target@.len(),
            forall|x: u32| #[trigger] legal@.contains(x) <==> legal_ids@.contains(x),
            start + target_errors(*g, i as int, legal_ids@, 0) == errors@ + target_errors(
                *g,
                i as int,
                legal_ids@,
                k as nat,
            ),
        decreases ply.target.len() - k,
    {
        let (a, pb) = ply.target[k];
        let ghost before = errors@;
        if !legal_contains(legal, a as u32) {
            errors.push(AuditError::TargetNotLegal { game_id: id, ply: i, action: a });
        }
        if is_bad_prob_bits(pb) {
            errors.push(AuditError::BadTargetProb { game_id: id, ply: i, prob_bits: pb });
        }
        assert(before + target_errors(*g, i as int, legal_ids@, k as nat) =~= errors@ + target_errors(
            *g,
            i as int,
            legal_ids@,
            (k + 1) as nat,
        ));
        k = k + 1;
    }
    assert(target_errors(*g, i as int, legal_ids@, k as nat) =~= Seq::<AuditError>::empty());
    assert(errors@ =~= start + target_errors(*g, i as int, legal_ids@, 0));
}

/// Audit ply `i`; returns whether the game's audit stops here.
fn audit_ply(g: &GameRecord, f: &GameFacts, i: usize, errors: &mut Vec<AuditError>) -> (stop: bool)
    requires
        i < g.plies@.len(),
        f.plies@.len() == g.plies@.len(),
    ensures
        final(errors)@ == old(errors)@ + ply_findings(*g, *f, i as int).0,
        stop == ply_findings(*g, *f, i as int).1,
{
    let ply = &g.plies[i];
    let p = &f.plies[i];
    let id = g.game_id;
    let legal = legal_set(&p.legal);
    if !legal_contains(&legal, ply.selected as u32) {
        errors.push(AuditError::SelectedNotLegal { game_id: id, ply: i });
        return true;
    }
    let ghost base = errors@;
    let ghost e = ply_findings(*g, *f, i as int).0;
    let ghost e_empty = if ply.target@.len() == 0 {
        seq![AuditError::EmptyTarget { game_id: id, ply: i }]
    } else {
        Seq::empty()
    };
    if ply.target.len() == 0 {
        errors.push(AuditError::EmptyTarget { game_id: id, ply: i });
    }
    assert(errors@ =~= base + e_empty);
    audit_targets(g, i, &p.legal, &legal, errors);
    let ghost e_sum = if p.target_sum_ok {
        Seq::empty()
    } else {
        seq![AuditError::TargetSum { game_id: id, ply: i, sum_bits: p.target_sum_bits }]
    };
    if !p.target_sum_ok {
        errors.push(AuditError::TargetSum { game_id: id, ply: i, sum_bits: p.target_sum_bits });
    }
    let stm: u8 = if p.side_to_move == Color::White { 0 } else { 1 };
    let ghost e_side = if side_code(p.side_to_move) != ply.side_to_move {
        seq![AuditError::SideToMoveMismatch { game_id: id, ply: i }]
    } else {
        Seq::empty()
    };
    if stm != ply.side_to_move {
        errors.push(AuditError::SideToMoveMismatch { game_id: id, ply: i });
    }
    let ghost mid = e_empty + target_errors(*g, i as int, p.legal@, 0) + e_sum + e_side;
    assert(errors@ =~= base + mid);
    if !p.selected_index_valid {
        errors.push(AuditError::InvalidActionIndex { game_id: id, ply: i });
        assert(errors@ =~= base + e);
        return true;
    }
    if !p.applied {
        errors.push(AuditError::IllegalMove { game_id: id, ply: i });
        assert(errors@ =~= base + e);
        return true;
    }
    assert(errors@ =~= base + e);
    false
}

/// The header checks of a game; returns the recorded termination when the
/// audit goes on to replay the plies.
fn audit_header(g: &GameRecord, f: &GameFacts, errors: &mut Vec<AuditError>) -> (go: Option<Termination>)
    ensures
        final(errors)@ == old(errors)@ + header_findings(*g, *f).0,
        go == header_findings(*g, *f).1,
{
    let id = g.game_id;
    let ghost base = errors@;
    if g.search.simulations == 0 {
        errors.push(AuditError::ZeroBudget { game_id: id });
    }
    if g.plies.len() == 0 {
        errors.push(AuditError::NoPlies { game_id: id });
        return None;
    }
    let term = match termination_from_label(g.termination.as_str()) {
        Some(t) => t,
        None => {
            errors.push(AuditError::UnknownTermination { game_id: id, label: g.termination.clone() });
            return None;
        },
    };
    let result = term.is_result();
    if result && g.outcome.is_none() {
        errors.push(AuditError::ResultWithoutOutcome { game_id: id });
    }
    if !result && g.outcome.is_some() {
        errors.push(AuditError::OutcomeWithoutResult { game_id: id });
    }
    if !f.start_ok {
        errors.push(AuditError::BadStartFen { game_id: id });
        return None;
    }
    assert(errors@ =~= base + header_findings(*g, *f).0);
    Some(term)
}

/// Replay-audit the plies; returns whether every ply applied.
fn audit_plies(g: &GameRecord, f: &GameFacts, errors: &mut Vec<AuditError>, plies: &mut u64) -> (ok: bool)
    requires
        f.plies@.len() == g.plies@.len(),
        *old(plies) + g.plies@.len() <= u64::MAX,
    ensures
        final(errors)@ == old(errors)@ + plies_from(*g, *f, 0).0,
        *final(plies) == *old(plies) + plies_from(*g, *f, 0).1,
        ok == plies_from(*g, *f, 0).2,
{
    let ghost e1 = errors@;
    let ghost start_plies = *plies;
    let mut i: usize = 0;
    while i < g.plies.len()
        invariant
            f.plies@.len() == g.plies@.len(),
            start_plies + g.plies@.len() <= u64::MAX,
            e1 == old(errors)@,
            start_plies == *old(plies),
            i <= g.plies@.len(),
            e1 + plies_from(*g, *f, 0).0 == errors@ + plies_from(*g, *f, i as nat).0,
            plies_from(*g, *f, 0).1 == i + plies_from(*g, *f, i as nat).1,
            plies_from(*g, *f, 0).2 == plies_from(*g, *f, i as nat).2,
            *plies == start_plies + i,
        decreases g.plies.len() - i,
    {
        *plies = *plies + 1;
        let ghost before = errors@;
        let stop = audit_ply(g, f, i, errors);
        if stop {
            assert(errors@ =~= before + plies_from(*g, *f, i as nat).0);
            assert(e1 + plies_from(*g, *f, 0).0 =~= errors@);
            return false;
        }
        assert(before + plies_from(*g, *f, i as nat).0 =~= errors@ + plies_from(
            *g,
            *f,
            (i + 1) as nat,
        ).0);
        i = i + 1;
    }
    assert(e1 + plies_from(*g, *f, 0).0 =~= errors@);
    true
}

/// The final-position checks of a game with a chess result.
fn audit_end(g: &GameRecord, f: &GameFacts, term: Termination, errors: &mut Vec<AuditError>)
    ensures
        final(errors)@ == old(errors)@ + end_findings(*g, *f, term),
{
    let id = g.game_id;
    let ghost before_end = errors@;
    if f.end_termination != Some(term) {
        errors.push(AuditError::TerminationMismatch { game_id: id, actual: f.end_termination, recorded: term });
    }
    if term == Termination::Checkmate {
        let expected: u8 = if f.end_side_to_move == Color::White { 2 } else { 0 };
        if g.outcome != Some(expected) {
            errors.push(AuditError::CheckmateOutcome { game_id: id, outcome: g.outcome, expected });
        }
    }
    if term != Termination::Checkmate && g.outcome != Some(1u8) {
        errors.push(AuditError::NonCheckmateNotDraw { game_id: id });
    }
    assert(errors@ =~= before_end + end_findings(*g, *f, term));
}

/// Audit one game against what replaying it reported, appending findings to
/// `errors` and counting visited plies into `plies`.
pub fn audit_game(g: &GameRecord, f: &GameFacts, errors: &mut Vec<AuditError>, plies: &mut u64)
    requires
        f.plies@.len() == g.plies@.len(),
        *old(plies) + g.plies@.len() <= u64::MAX,
    ensures
        final(errors)@ == old(errors)@ + audit_game_spec(*g, *f).0,
        *final(plies) == *old(plies) + audit_game_spec(*g, *f).1,
{
    let ghost base = errors@;
    match audit_header(g, f, errors) {
        None => {},
        Some(term) => {
            let ghost e1 = errors@;
            let ok = audit_plies(g, f, errors, plies);
            if ok && term.is_result() {
                audit_end(g, f, term, errors);
            }
            assert(errors@ =~= base + audit_game_spec(*g, *f).0);
        },
    }
}

/// Findings and plies of games `i..` audited after the ids in `seen`, and
/// the ids seen afterwards.
pub open spec fn fold_games(games: Seq<GameRecord>, facts: Seq<GameFacts>, i: nat, seen: Seq<u64>) -> (Seq<AuditError>, nat, Seq<u64>)
    decreases games.len() - i,
{
    if i >= games.len() {
        (Seq::empty(), 0, seen)
    } else {
        let g = games[i as int];
        let dup = if seen.contains(g.game_id) {
            seq![AuditError::DuplicateGameId { game_id: g.game_id }]
        } else {
            Seq::empty()
        };
        let (e, n) = audit_game_spec(g, facts[i as int]);
        let (r, m, s2) = fold_games(games, facts, i + 1, seen.push(g.game_id));
        (dup + e + r, n + m, s2)
    }
}

/// Facts line up with games, ply for ply.
pub open spec fn facts_align(games: Seq<GameRecord>, facts: Seq<GameFacts>) -> bool {
    &&& facts.len() == games.len()
    &&& forall|i: int| 0 <= i < games.len() ==> #[trigger] facts[i].plies@.len() == games[i].plies@.len()
}

/// Plies over all games.
pub open spec fn all_plies(games: Seq<GameRecord>) -> nat
    decreases games.len(),
{
    if games.len() == 0 { 0 } else { all_plies(games.drop_last()) + games.last().plies@.len() }
}

proof fn lemma_all_plies_skip(games: Seq<GameRecord>, i: int)
    requires
        0 <= i < games.len(),
    ensures
        all_plies(games.skip(i)) == games[i].plies@.len() + all_plies(games.skip(i + 1)),
    decreases games.len() - i,
{
    if i + 1 < games.len() {
        lemma_all_plies_skip(games, i + 1);
        assert(games.skip(i).drop_last() =~= games.drop_last().skip(i));
        assert(games.skip(i + 1).drop_last() =~= games.drop_last().skip(i + 1));
        lemma_all_plies_skip(games.drop_last(), i);
    } else {
        assert(games.skip(i).drop_last() =~= Seq::<GameRecord>::empty());
        assert(games.skip(i + 1) =~= Seq::<GameRecord>::empty());
    }
}

proof fn lemma_audit_game_plies_bound(g: GameRecord, f: GameFacts)
    ensures
        audit_game_spec(g, f).1 <= g.plies@.len(),
{
    lemma_plies_from_bound(g, f, 0);
}

proof fn lemma_plies_from_bound(g: GameRecord, f: GameFacts, i: nat)
    ensures
        plies_from(g, f, i).1 + i <= (if i <= g.plies@.len() { g.plies@.len() } else { i }),
    decreases g.plies@.len() - i,
{
    if i < g.plies@.len() {
        lemma_plies_from_bound(g, f, i + 1);
    }
}

/// The game ids audited so far, in audit order, with a hash set for
/// lookups.
struct SeenIds {
    set: HashSet<u64>,
    ids: Ghost<Seq<u64>>,
}

impl SeenIds {
    /// The ids seen, in order.
    closed spec fn ids(&self) -> Seq<u64> {
        self.ids@
    }

    /// The set holds exactly the ids seen.
    closed spec fn wf(&self) -> bool {
        forall|x: u64| #[trigger] self.set@.contains(x) <==> self.ids@.contains(x)
    }

    fn new() -> (s: Self)
        ensures
            s.wf(),
            s.ids() == Seq::<u64>::empty(),
    {
        SeenIds { set: HashSet::new(), ids: Ghost(Seq::empty()) }
    }

    fn contains(&self, x: u64) -> (r: bool)
        requires
            self.wf(),
        ensures
            r == self.ids().contains(x),
    {
        broadcast use vstd::std_specs::hash::group_hash_axioms;
        self.set.contains(&x)
    }

    fn insert(&mut self, x: u64)
        requires
            old(self).wf(),
        ensures
            final(self).wf(),
            final(self).ids() == old(self).ids().push(x),
    {
        broadcast use vstd::std_specs::hash::group_hash_axioms;
        let ghost before = self.ids@;
        self.set.insert(x);
        self.ids = Ghost(before.push(x));
        assert forall|y: u64| #[trigger] self.set@.contains(y) <==> self.ids@.contains(y) by {
            if y == x {
                assert(self.ids@[before.len() as int] == x);
            } else if before.contains(y) {
                let k = choose|k: int| 0 <= k < before.len() && before[k] == y;
                assert(self.ids@[k] == y);
            } else if self.ids@.contains(y) {
                let k = choose|k: int| 0 <= k < self.ids@.len() && self.ids@[k] == y;
                assert(before[k] == y);
            }
        }
    }
}

/// Audit games in order, flagging ids already in `seen`.
fn audit_game_list(games: &Vec<GameRecord>, facts: &Vec<GameFacts>, seen: &mut SeenIds, errors: &mut Vec<AuditError>, plies: &mut u64)
    requires
        facts_align(games@, facts@),
        *old(plies) + all_plies(games@) <= u64::MAX,
        old(seen).wf(),
    ensures
        final(seen).wf(),
        final(errors)@ == old(errors)@ + fold_games(games@, facts@, 0, old(seen).ids()).0,
        *final(plies) == *old(plies) + fold_games(games@, facts@, 0, old(seen).ids()).1,
        final(seen).ids() == fold_games(games@, facts@, 0, old(seen).ids()).2,
{
    let ghost e0 = errors@;
    let ghost p0 = *plies;
    let ghost s0 = seen.ids();
    let mut i: usize = 0;
    assert(games@.skip(0) =~= games@);
    while i < games.len()
        invariant
            facts_align(games@, facts@),
            i <= games@.len(),
            e0 == old(errors)@,
            p0 == *old(plies),
            s0 == old(seen).ids(),
            *plies + all_plies(games@.skip(i as int)) <= u64::MAX,
            e0 + fold_games(games@, facts@, 0, s0).0 == errors@ + fold_games(games@, facts@, i as nat, seen.ids()).0,
            fold_games(games@, facts@, 0, s0).1 + p0 == *plies + fold_games(games@, facts@, i as nat, seen.ids()).1,
            fold_games(games@, facts@, 0, s0).2 == fold_games(games@, facts@, i as nat, seen.ids()).2,
            *plies >= p0,
            seen.wf(),
        decreases games.len() - i,
    {
        let g = &games[i];
        let ghost before = errors@;
        let ghost seen_before = seen.ids();
        let ghost plies_before = *plies;
        proof {
            lemma_all_plies_skip(games@, i as int);
            lemma_audit_game_plies_bound(*g, facts@[i as int]);
        }
        if seen.contains(g.game_id) {
            errors.push(AuditError::DuplicateGameId { game_id: g.game_id });
        }
        seen.insert(g.game_id);
        audit_game(g, &facts[i], errors, plies);
        assert(before + fold_games(games@, facts@, i as nat, seen_before).0 =~= errors@ + fold_games(
            games@,
            facts@,
            (i + 1) as nat,
            seen.ids(),
        ).0);
        i = i + 1;
    }
    assert(e0 + fold_games(games@, facts@, 0, s0).0 =~= errors@);
}

/// Audit a set of in-memory game records, each with what replaying it
/// reported. Findings come in game order: a duplicate game id first, then
/// the game's own findings.
pub fn audit_games(games: &Vec<GameRecord>, facts: &Vec<GameFacts>) -> (r: AuditReport)
    requires
        facts_align(games@, facts@),
        all_plies(games@) <= u64::MAX,
    ensures
        r.shards == 0,
        r.games == games@.len(),
        r.errors@ == fold_games(games@, facts@, 0, Seq::empty()).0,
        r.plies == fold_games(games@, facts@, 0, Seq::empty()).1,
{
    let mut errors: Vec<AuditError> = Vec::new();
    let mut plies: u64 = 0;
    let mut seen = SeenIds::new();
    audit_game_list(games, facts, &mut seen, &mut errors, &mut plies);
    assert(errors@ =~= fold_games(games@, facts@, 0, Seq::empty()).0);
    AuditReport { shards: 0, games: games.len(), plies, errors }
}

/// One manifest shard as the auditor read it: its file, the game count the
/// manifest records, and either its games with what replaying each reported,
/// or why it could not be read.
#[derive(Debug)]
pub struct ShardAudit {
    pub file: String,
    pub manifest_games: u64,
    pub contents: Result<(Vec<GameRecord>, Vec<GameFacts>), String>,
}

/// Findings, plies and games of shards `s..`, after the ids in `seen`.
pub open spec fn fold_shards(shards: Seq<ShardAudit>, s: nat, seen: Seq<u64>) -> (Seq<AuditError>, nat, nat)
    decreases shards.len() - s,
{
    if s >= shards.len() {
        (Seq::empty(), 0, 0)
    } else {
        let sh = shards[s as int];
        match sh.contents {
            Ok((games, facts)) => {
                let count = if games@.len() != sh.manifest_games {
                    seq![AuditError::ShardGameCount { file: sh.file, actual: games@.len() as u64, manifest: sh.manifest_games }]
                } else {
                    Seq::empty()
                };
                let (e, n, seen2) = fold_games(games@, facts@, 0, seen);
                let (r, m, k) = fold_shards(shards, s + 1, seen2);
                (count + e + r, n + m, games@.len() + k)
            },
            Err(reason) => {
                let (r, m, k) = fold_shards(shards, s + 1, seen);
                (seq![AuditError::ShardUnreadable { file: sh.file, reason }] + r, m, k)
            },
        }
    }
}

/// Every readable shard's facts line up with its games.
pub open spec fn shards_align(shards: Seq<ShardAudit>) -> bool {
    forall|s: int| 0 <= s < shards.len() ==> match #[trigger] shards[s].contents {
        Ok((games, facts)) => facts_align(games@, facts@),
        Err(_) => true,
    }
}

/// Plies over all readable shards `s..`.
pub open spec fn shard_plies(shards: Seq<ShardAudit>, s: nat) -> nat
    decreases shards.len() - s,
{
    if s >= shards.len() {
        0
    } else {
        shard_plies(shards, s + 1) + match shards[s as int].contents {
            Ok((games, _)) => all_plies(games@),
            Err(_) => 0,
        }
    }
}

proof fn lemma_fold_games_plies(games: Seq<GameRecord>, facts: Seq<GameFacts>, i: nat, seen: Seq<u64>)
    requires
        i <= games.len(),
    ensures
        fold_games(games, facts, i, seen).1 <= all_plies(games.skip(i as int)),
    decreases games.len() - i,
{
    if i < games.len() {
        lemma_fold_games_plies(games, facts, i + 1, seen.push(games[i as int].game_id));
        lemma_all_plies_skip(games, i as int);
        lemma_audit_game_plies_bound(games[i as int], facts[i as int]);
    } else {
        assert(games.skip(i as int) =~= Seq::<GameRecord>::empty());
    }
}

/// Audit an on-disk replay as read shard by shard (in manifest order). A
/// shard that could not be read, or whose game count differs from the
/// manifest, is a finding; game ids must be unique across all shards.
pub fn audit_dir(shards: &Vec<ShardAudit>) -> (r: AuditReport)
    requires
        shards_align(shards@),
        shard_plies(shards@, 0) <= u64::MAX,
        fold_shards(shards@, 0, Seq::empty()).2 <= usize::MAX,
    ensures
        r.shards == shards@.len(),
        r.errors@ == fold_shards(shards@, 0, Seq::empty()).0,
        r.plies == fold_shards(shards@, 0, Seq::empty()).1,
        r.games == fold_shards(shards@, 0, Seq::empty()).2,
{
    let mut errors: Vec<AuditError> = Vec::new();
    let mut plies: u64 = 0;
    let mut games_seen: usize = 0;
    let mut seen = SeenIds::new();
    let mut s: usize = 0;
    let ghost total = fold_shards(shards@, 0, Seq::empty());
    while s < shards.len()
        invariant
            shards_align(shards@),
            s <= shards@.len(),
            total == fold_shards(shards@, 0, Seq::empty()),
            total.0 == errors@ + fold_shards(shards@, s as nat, seen.ids()).0,
            total.1 == plies + fold_shards(shards@, s as nat, seen.ids()).1,
            total.2 == games_seen + fold_shards(shards@, s as nat, seen.ids()).2,
            plies + shard_plies(shards@, s as nat) <= u64::MAX,
            total.2 <= usize::MAX,
            seen.wf(),
        decreases shards.len() - s,
    {
        let sh = &shards[s];
        let ghost before = errors@;
        let ghost seen_before = seen.ids();
        let ghost plies_before = plies;
        match &sh.contents {
            Ok((games, facts)) => {
                assert(facts_align(games@, facts@));
                if games.len() as u64 != sh.manifest_games {
                    errors.push(AuditError::ShardGameCount {
                        file: sh.file.clone(),
                        actual: games.len() as u64,
                        manifest: sh.manifest_games,
                    });
                }
                proof {
                    lemma_fold_games_plies(games@, facts@, 0, seen_before);
                    assert(games@.skip(0) =~= games@);
                }
                audit_game_list(games, facts, &mut seen, &mut errors, &mut plies);
                assert(before + fold_shards(shards@, s as nat, seen_before).0 =~= errors@ + fold_shards(
                    shards@,
                    (s + 1) as nat,
                    seen.ids(),
                ).0);
                games_seen = games_seen + games.len();
            },
            Err(reason) => {
                errors.push(AuditError::ShardUnreadable { file: sh.file.clone(), reason: reason.clone() });
                assert(before + fold_shards(shards@, s as nat, seen_before).0 =~= errors@ + fold_shards(
                    shards@,
                    (s + 1) as nat,
                    seen.ids(),
                ).0);
            },
        }
        s = s + 1;
    }
    assert(errors@ =~= total.0);
    AuditReport { shards: shards.len(), games: games_seen, plies, errors }
}

/// A finding about the outcome label of a game.
pub open spec fn outcome_flag(e: AuditError) -> bool {
    e is OutcomeWithoutResult || e is ResultWithoutOutcome
}

/// No finding of `s` is an outcome-label finding.
pub open spec fn no_outcome_flag(s: Seq<AuditError>) -> bool {
    forall|j: int| 0 <= j < s.len() ==> !outcome_flag(#[trigger] s[j])
}

proof fn lemma_target_errors_no_flag(g: GameRecord, i: int, legal: Seq<u32>, k: nat)
    ensures
        no_outcome_flag(target_errors(g, i, legal, k)),
    decreases g.plies@[i].target@.len() - k,
{
    let t = g.plies@[i].target@;
    if k < t.len() {
        lemma_target_errors_no_flag(g, i, legal, k + 1);
        let (a, p) = t[k as int];
        let e1 = if legal.contains(a as u32) {
            Seq::<AuditError>::empty()
        } else {
            seq![AuditError::TargetNotLegal { game_id: g.game_id, ply: i as usize, action: a }]
        };
        let e2 = if bad_prob_bits(p) {
            seq![AuditError::BadTargetProb { game_id: g.game_id, ply: i as usize, prob_bits: p }]
        } else {
            Seq::<AuditError>::empty()
        };
        let rest = target_errors(g, i, legal, k + 1);
        assert(target_errors(g, i, legal, k) == e1 + e2 + rest);
        assert forall|j: int| 0 <= j < (e1 + e2 + rest).len() implies !outcome_flag(#[trigger] (e1 + e2 + rest)[j]) by {
            if j >= e1.len() + e2.len() {
                assert((e1 + e2 + rest)[j] == rest[j - e1.len() - e2.len()]);
            }
        }
    }
}

proof fn lemma_plies_no_flag(g: GameRecord, f: GameFacts, i: nat)
    ensures
        no_outcome_flag(plies_from(g, f, i).0),
    decreases g.plies@.len() - i,
{
    if i < g.plies@.len() {
        let ply = g.plies@[i as int];
        let p = f.plies@[i as int];
        let te = target_errors(g, i as int, p.legal@, 0);
        lemma_target_errors_no_flag(g, i as int, p.legal@, 0);
        let e = ply_findings(g, f, i as int).0;
        assert(no_outcome_flag(e)) by {
            if p.legal@.contains(ply.selected as u32) {
                let a = if ply.target@.len() == 0 {
                    seq![AuditError::EmptyTarget { game_id: g.game_id, ply: i as usize }]
                } else {
                    Seq::<AuditError>::empty()
                };
                let c = if p.target_sum_ok {
                    Seq::<AuditError>::empty()
                } else {
                    seq![AuditError::TargetSum { game_id: g.game_id, ply: i as usize, sum_bits: p.target_sum_bits }]
                };
                let d = if side_code(p.side_to_move) != ply.side_to_move {
                    seq![AuditError::SideToMoveMismatch { game_id: g.game_id, ply: i as usize }]
                } else {
                    Seq::<AuditError>::empty()
                };
                let base = a + te + c + d;
                assert forall|j: int| 0 <= j < base.len() implies !outcome_flag(#[trigger] base[j]) by {
                    if j >= a.len() && j < a.len() + te.len() {
                        assert(base[j] == te[j - a.len()]);
                    }
                }
                assert forall|j: int| 0 <= j < e.len() implies !outcome_flag(#[trigger] e[j]) by {
                    if j < base.len() {
                        assert(e[j] == base[j]);
                    }
                }
            }
        }
        if !ply_findings(g, f, i as int).1 {
            lemma_plies_no_flag(g, f, i + 1);
            let r = plies_from(g, f, i + 1).0;
            assert forall|j: int| 0 <= j < (e + r).len() implies !outcome_flag(#[trigger] (e + r)[j]) by {
                if j >= e.len() {
                    assert((e + r)[j] == r[j - e.len()]);
                }
            }
        }
    }
}

/// The audit flags "outcome on a game without a chess result" exactly when
/// a game whose label is known is truncated or aborted and carries an
/// outcome, and "result game without outcome" exactly when it ended in a
/// chess result and carries none.
pub proof fn lemma_outcome_flags_are_exact(g: GameRecord, f: GameFacts, t: Termination)
    requires
        g.plies@.len() > 0,
        from_label_spec(g.termination@) == Some(t),
    ensures
        audit_game_spec(g, f).0.contains(AuditError::OutcomeWithoutResult { game_id: g.game_id })
            <==> (!is_result_spec(t) && g.outcome is Some),
        audit_game_spec(g, f).0.contains(AuditError::ResultWithoutOutcome { game_id: g.game_id })
            <==> (is_result_spec(t) && g.outcome is None),
{
    let id = g.game_id;
    let e0 = if g.search.simulations == 0 {
        seq![AuditError::ZeroBudget { game_id: id }]
    } else {
        Seq::<AuditError>::empty()
    };
    let a = if is_result_spec(t) && g.outcome is None {
        seq![AuditError::ResultWithoutOutcome { game_id: id }]
    } else {
        Seq::<AuditError>::empty()
    };
    let b = if !is_result_spec(t) && g.outcome is Some {
        seq![AuditError::OutcomeWithoutResult { game_id: id }]
    } else {
        Seq::<AuditError>::empty()
    };
    let e1 = e0 + a + b;
    let head = if f.start_ok { e1 } else { e1.push(AuditError::BadStartFen { game_id: id }) };
    assert(header_findings(g, f).0 == head);
    let tail: Seq<AuditError> = if f.start_ok {
        let pe = plies_from(g, f, 0).0;
        if plies_from(g, f, 0).2 && is_result_spec(t) { pe + end_findings(g, f, t) } else { pe }
    } else {
        Seq::empty()
    };
    lemma_plies_no_flag(g, f, 0);
    assert(no_outcome_flag(tail)) by {
        if f.start_ok {
            let pe = plies_from(g, f, 0).0;
            if plies_from(g, f, 0).2 && is_result_spec(t) {
                let ef = end_findings(g, f, t);
                assert forall|j: int| 0 <= j < (pe + ef).len() implies !outcome_flag(#[trigger] (pe + ef)[j]) by {
                    if j < pe.len() {
                        assert((pe + ef)[j] == pe[j]);
                    }
                }
            }
        }
    }
    let all = head + tail;
    assert(audit_game_spec(g, f).0 == all);
    let x = AuditError::OutcomeWithoutResult { game_id: id };
    let y = AuditError::ResultWithoutOutcome { game_id: id };
    if !is_result_spec(t) && g.outcome is Some {
        assert(all[(e0.len() + a.len()) as int] == x);
    } else {
        assert(!all.contains(x)) by {
            if all.contains(x) {
                let j = choose|j: int| 0 <= j < all.len() && all[j] == x;
                if j >= head.len() {
                    assert(all[j] == tail[j - head.len()]);
                }
            }
        }
    }
    if is_result_spec(t) && g.outcome is None {
        assert(all[e0.len() as int] == y);
    } else {
        assert(!all.contains(y)) by {
            if all.contains(y) {
                let j = choose|j: int| 0 <= j < all.len() && all[j] == y;
                if j >= head.len() {
                    assert(all[j] == tail[j - head.len()]);
                }
            }
        }
    }
}

proof fn lemma_clean_plies_all_visited(g: GameRecord, f: GameFacts, i: nat)
    requires
        i <= g.plies@.len(),
        plies_from(g, f, i).0.len() == 0,
    ensures
        plies_from(g, f, i).1 == g.plies@.len() - i,
        plies_from(g, f, i).2,
    decreases g.plies@.len() - i,
{
    if i < g.plies@.len() {
        let (e, stop) = ply_findings(g, f, i as int);
        if stop {
            assert(e.len() > 0);
        } else {
            let (r, c, ok) = plies_from(g, f, i + 1);
            assert((e + r).len() == e.len() + r.len());
            lemma_clean_plies_all_visited(g, f, i + 1);
        }
    }
}

/// A game that audits clean is replayed to its last ply.
proof fn lemma_clean_game_visits_every_ply(g: GameRecord, f: GameFacts)
    requires
        audit_game_spec(g, f).0.len() == 0,
    ensures
        audit_game_spec(g, f).1 == g.plies@.len(),
{
    let e = header_findings(g, f).0;
    lemma_clean_header(g, f);
    let t = from_label_spec(g.termination@)->Some_0;
    let pe = plies_from(g, f, 0).0;
    if plies_from(g, f, 0).2 && is_result_spec(t) {
        assert(audit_game_spec(g, f).0 == e + pe + end_findings(g, f, t));
    } else {
        assert(audit_game_spec(g, f).0 == e + pe);
    }
    assert(pe.len() == 0);
    lemma_clean_plies_all_visited(g, f, 0);
}

/// Auditing two copies of a game that audits clean on its own reports
/// exactly one finding, the second copy's duplicate id, and counts the
/// plies of both copies.
#[verifier::spinoff_prover]
#[verifier::rlimit(40)]
pub proof fn lemma_duplicate_clean_game(g: GameRecord, f: GameFacts)
    requires
        fold_games(seq![g], seq![f], 0, Seq::empty()).0.len() == 0,
    ensures
        fold_games(seq![g, g], seq![f, f], 0, Seq::empty()).0 == seq![AuditError::DuplicateGameId { game_id: g.game_id }],
        fold_games(seq![g, g], seq![f, f], 0, Seq::empty()).1 == 2 * g.plies@.len(),
{
    reveal_with_fuel(fold_games, 3);
    let (e, n) = audit_game_spec(g, f);
    assert(fold_games(seq![g], seq![f], 1, seq![g.game_id]).0.len() == 0);
    assert(!Seq::<u64>::empty().contains(g.game_id));
    assert(fold_games(seq![g], seq![f], 0, Seq::empty()).0 =~= e);
    assert(e.len() == 0);
    lemma_clean_game_visits_every_ply(g, f);
    let s1 = seq![g.game_id];
    assert(s1.contains(g.game_id)) by {
        assert(s1[0] == g.game_id);
    }
    let two = seq![g, g];
    let ff = seq![f, f];
    assert(two[0] == g && two[1] == g);
    assert(ff[0] == f && ff[1] == f);
    assert(fold_games(two, ff, 2, s1.push(g.game_id)).0.len() == 0);
    assert(fold_games(two, ff, 1, s1).0 =~= seq![AuditError::DuplicateGameId { game_id: g.game_id }] + e + Seq::empty());
    assert(fold_games(two, ff, 0, Seq::empty()).0 =~= Seq::empty() + e + fold_games(two, ff, 1, s1).0);
}

} // verus!
