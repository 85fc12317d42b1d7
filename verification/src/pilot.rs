//! Pilot decisions: when a bounded multi-cycle pilot stops, whether a trained
//! candidate becomes the next self-play snapshot, and the optimizer
//! trajectory the accepted snapshots follow.

use vstd::prelude::*;

use crate::config::{planned_spec, schedule_fits, RunConfig, SnapshotPolicy};
use crate::run_dir::RunStatus;
use crate::text::str_equal;

verus! {

/// The game tally of an arena, as promotion reads it.
#[derive(Debug, Clone, Copy, PartialEq, Eq, Structural)]
pub struct ArenaTally {
    pub games: u32,
    pub candidate_wins: u32,
    pub reference_wins: u32,
    pub draws: u32,
    pub truncated: u32,
}

/// An arena informs promotion only if some game finished and some game was
/// decisive: draw-only and all-truncated arenas are uninformative.
pub fn arena_informative_for_promotion(arena: &ArenaTally) -> (r: bool)
    ensures
        r == (arena.truncated < arena.games && arena.candidate_wins + arena.reference_wins > 0),
{
    arena.truncated < arena.games && (arena.candidate_wins > 0 || arena.reference_wins > 0)
}

/// Why a pilot stopped before its last cycle, or that it completed.
#[derive(Debug, Clone, Copy, PartialEq, Eq, Structural)]
pub enum PilotStatus {
    Completed,
    Interrupted,
    BudgetExhausted,
    PositionBudgetExhausted,
    BudgetExhaustedDuringCollect,
}

impl PilotStatus {
    /// The label written to reports.
    pub fn label(&self) -> (r: &'static str)
        ensures
            *self == PilotStatus::Completed ==> r@ == "completed"@,
            *self == PilotStatus::Interrupted ==> r@ == "interrupted"@,
            *self == PilotStatus::BudgetExhausted ==> r@ == "budget_exhausted"@,
            *self == PilotStatus::PositionBudgetExhausted ==> r@ == "position_budget_exhausted"@,
            *self == PilotStatus::BudgetExhaustedDuringCollect ==> r@ == "budget_exhausted_during_collect"@,
    {
        match self {
            PilotStatus::Completed => "completed",
            PilotStatus::Interrupted => "interrupted",
            PilotStatus::BudgetExhausted => "budget_exhausted",
            PilotStatus::PositionBudgetExhausted => "position_budget_exhausted",
            PilotStatus::BudgetExhaustedDuringCollect => "budget_exhausted_during_collect",
        }
    }
}

/// The check before a cycle: cancellation first, then the wall-clock budget,
/// then the position budget. `None` means the cycle runs.
pub open spec fn cycle_gate_spec(cancelled: bool, past_deadline: bool, position_budget: Option<u64>, total_positions: u64) -> Option<PilotStatus> {
    if cancelled {
        Some(PilotStatus::Interrupted)
    } else if past_deadline {
        Some(PilotStatus::BudgetExhausted)
    } else {
        match position_budget {
            Some(b) => if total_positions >= b { Some(PilotStatus::PositionBudgetExhausted) } else { None },
            None => None,
        }
    }
}

/// The check before a cycle: cancellation first, then the wall-clock budget,
/// then the position budget. `None` means the cycle runs.
pub fn cycle_gate(cancelled: bool, past_deadline: bool, position_budget: Option<u64>, total_positions: u64) -> (r: Option<PilotStatus>)
    ensures
        r == cycle_gate_spec(cancelled, past_deadline, position_budget, total_positions),
        r is None <==> (!cancelled && !past_deadline && (position_budget is Some ==> total_positions
            < position_budget->0)),
        (!cancelled && !past_deadline && position_budget is Some && total_positions >= position_budget->0) ==> r
            == Some(PilotStatus::PositionBudgetExhausted),
{
    if cancelled {
        return Some(PilotStatus::Interrupted);
    }
    if past_deadline {
        return Some(PilotStatus::BudgetExhausted);
    }
    match position_budget {
        Some(b) => if total_positions >= b { Some(PilotStatus::PositionBudgetExhausted) } else { None },
        None => None,
    }
}

/// The pre-cycle check stops a pilot whose collected positions have reached
/// its position budget, and only then lets cycles run while the total is
/// below it: with neither cancellation nor the deadline, a budget `b` stops
/// the pilot at every total `>= b` and runs it at every total `< b`; once it
/// stops at some total it stops at every larger total; cancellation wins
/// over the deadline, and the deadline over the budget.
pub proof fn lemma_position_budget_stops_the_pilot(b: u64, total: u64, more: u64)
    ensures
        total >= b ==> cycle_gate_spec(false, false, Some(b), total) == Some(PilotStatus::PositionBudgetExhausted),
        total < b ==> cycle_gate_spec(false, false, Some(b), total) is None,
        cycle_gate_spec(false, false, None, total) is None,
        (cycle_gate_spec(false, false, Some(b), total) is Some && more >= total) ==> cycle_gate_spec(
            false,
            false,
            Some(b),
            more,
        ) is Some,
        cycle_gate_spec(true, true, Some(b), total) == Some(PilotStatus::Interrupted),
        cycle_gate_spec(false, true, Some(b), total) == Some(PilotStatus::BudgetExhausted),
{
}

/// A cycle that collected fewer games than requested ran out of budget.
pub fn collection_gate(games: u64, requested: u32) -> (r: Option<PilotStatus>)
    ensures
        r == (if games < requested { Some(PilotStatus::BudgetExhaustedDuringCollect) } else { None }),
{
    if games < requested as u64 {
        Some(PilotStatus::BudgetExhaustedDuringCollect)
    } else {
        None
    }
}

/// The run status a pilot ends with.
pub fn final_run_status(status: PilotStatus) -> (r: RunStatus)
    ensures
        r == (if status == PilotStatus::Completed { RunStatus::Completed } else { RunStatus::Interrupted }),
{
    if status == PilotStatus::Completed {
        RunStatus::Completed
    } else {
        RunStatus::Interrupted
    }
}

/// The snapshot decision of one cycle.
#[derive(Debug, Clone, Copy, PartialEq, Eq, Structural)]
pub enum SnapshotDecision {
    /// The candidate becomes the next self-play snapshot.
    Promote,
    /// The snapshot stays as it is.
    Hold,
}

impl SnapshotDecision {
    /// The decision as written to reports and lineage.
    pub fn label(&self) -> (r: &'static str)
        ensures
            *self == SnapshotDecision::Promote ==> r@ == "promote"@,
            *self == SnapshotDecision::Hold ==> r@ == "hold"@,
    {
        match self {
            SnapshotDecision::Promote => "promote",
            SnapshotDecision::Hold => "hold",
        }
    }
}

/// Why a cycle's candidate was not promoted.
#[derive(Debug, Clone, Copy, PartialEq, Eq, Structural)]
pub enum HoldReason {
    /// The snapshot policy keeps the initial reference.
    FrozenReference,
    /// The cycle was not healthy.
    Unhealthy,
    /// No arena game finished decisively.
    Uninformative,
    /// Fewer decisive arena games than the configured minimum.
    TooFewDecisive,
    /// The candidate's arena score is not above one half.
    ScoreNotAboveHalf,
    /// The candidate's arena score is below the configured floor.
    ScoreBelowFloor,
}

/// Decisive (won or lost) games of an arena.
pub open spec fn decisive_games(a: ArenaTally) -> int {
    a.candidate_wins + a.reference_wins
}

/// An arena informs promotion when some game finished and some was decisive.
pub open spec fn informative_spec(a: ArenaTally) -> bool {
    a.truncated < a.games && decisive_games(a) > 0
}

/// Why the candidate of a cycle is held, in this order: the frozen-reference
/// policy (alone), then an unhealthy cycle, an uninformative arena, too few
/// decisive games, a score not above one half, and a score below the floor.
/// The score comparisons are floating-point and arrive as flags.
pub open spec fn hold_reasons_spec(
    policy: SnapshotPolicy,
    healthy: bool,
    arena: ArenaTally,
    min_decisive_games: u32,
    score_above_half: bool,
    score_meets_floor: bool,
) -> Seq<HoldReason> {
    if policy == SnapshotPolicy::FrozenReference {
        seq![HoldReason::FrozenReference]
    } else {
        (if healthy { Seq::empty() } else { seq![HoldReason::Unhealthy] })
            + (if informative_spec(arena) { Seq::empty() } else { seq![HoldReason::Uninformative] })
            + (if decisive_games(arena) >= min_decisive_games { Seq::empty() } else { seq![HoldReason::TooFewDecisive] })
            + (if score_above_half { Seq::empty() } else { seq![HoldReason::ScoreNotAboveHalf] })
            + (if score_meets_floor { Seq::empty() } else { seq![HoldReason::ScoreBelowFloor] })
    }
}

/// The decision of a cycle: promote exactly when there is no reason to hold.
pub open spec fn decision_spec(
    policy: SnapshotPolicy,
    healthy: bool,
    arena: ArenaTally,
    min_decisive_games: u32,
    score_above_half: bool,
    score_meets_floor: bool,
) -> SnapshotDecision {
    if hold_reasons_spec(policy, healthy, arena, min_decisive_games, score_above_half, score_meets_floor).len() == 0 {
        SnapshotDecision::Promote
    } else {
        SnapshotDecision::Hold
    }
}

/// The reasons a cycle's candidate is held (see [`hold_reasons_spec`]);
/// empty exactly when it is promoted.
pub fn hold_reasons(
    policy: SnapshotPolicy,
    healthy: bool,
    arena: &ArenaTally,
    min_decisive_games: u32,
    score_above_half: bool,
    score_meets_floor: bool,
) -> (r: Vec<HoldReason>)
    ensures
        r@ == hold_reasons_spec(policy, healthy, *arena, min_decisive_games, score_above_half, score_meets_floor),
{
    let mut out: Vec<HoldReason> = Vec::new();
    if policy == SnapshotPolicy::FrozenReference {
        out.push(HoldReason::FrozenReference);
        assert(out@ =~= seq![HoldReason::FrozenReference]);
        return out;
    }
    let decisive = arena.candidate_wins as u64 + arena.reference_wins as u64;
    if !healthy {
        out.push(HoldReason::Unhealthy);
    }
    if !arena_informative_for_promotion(arena) {
        out.push(HoldReason::Uninformative);
    }
    if decisive < min_decisive_games as u64 {
        out.push(HoldReason::TooFewDecisive);
    }
    if !score_above_half {
        out.push(HoldReason::ScoreNotAboveHalf);
    }
    if !score_meets_floor {
        out.push(HoldReason::ScoreBelowFloor);
    }
    assert(out@ =~= hold_reasons_spec(policy, healthy, *arena, min_decisive_games, score_above_half, score_meets_floor));
    out
}

/// The conservative promotion rule. Under a frozen reference nothing is
/// promoted; otherwise the candidate is promoted exactly when its cycle is
/// healthy, the arena is informative, it had at least
/// `min_decisive_games` decisive games, and the candidate's score is above
/// one half and not below the floor.
pub fn snapshot_decision(
    policy: SnapshotPolicy,
    healthy: bool,
    arena: &ArenaTally,
    min_decisive_games: u32,
    score_above_half: bool,
    score_meets_floor: bool,
) -> (r: SnapshotDecision)
    ensures
        r == decision_spec(policy, healthy, *arena, min_decisive_games, score_above_half, score_meets_floor),
        r == SnapshotDecision::Promote <==> (policy == SnapshotPolicy::Conservative && healthy
            && informative_spec(*arena) && decisive_games(*arena) >= min_decisive_games && score_above_half
            && score_meets_floor),
{
    let reasons = hold_reasons(policy, healthy, arena, min_decisive_games, score_above_half, score_meets_floor);
    if reasons.len() == 0 {
        SnapshotDecision::Promote
    } else {
        SnapshotDecision::Hold
    }
}

/// A cycle is healthy when its replay audited clean, inference reported no
/// error, training consumed at least the required share of the reuse target
/// (`reuse_meets_target`, a float comparison made by the caller), it ran at
/// least one update, and every logged training metric was finite.
pub fn cycle_healthy(audit_ok: bool, inference_errors: u64, reuse_meets_target: bool, updates: Option<u64>, metrics_finite: bool) -> (r: bool)
    ensures
        r == (audit_ok && inference_errors == 0 && reuse_meets_target && match updates {
            Some(n) => n > 0 && metrics_finite,
            None => false,
        }),
{
    audit_ok && inference_errors == 0 && reuse_meets_target && match updates {
        Some(n) => n > 0 && metrics_finite,
        None => false,
    }
}

/// Why a cycle fell short of its reuse target.
#[derive(Debug, Clone, Copy, PartialEq, Eq, Structural)]
pub enum ReuseShortfall {
    /// The `max_updates` safety cap cut the requested work.
    SafetyCap,
    /// Training stopped early: the run deadline passed or the replay ran out.
    DeadlineOrExhaustion,
    /// The updates ran, but effective-batch rounding or too few trainable
    /// positions left the reuse short.
    RoundingOrScarcity,
}

impl ReuseShortfall {
    /// The reason as written to reports.
    pub fn reason(&self) -> (r: &'static str)
        ensures
            *self == ReuseShortfall::SafetyCap ==> r@ == "max_updates safety cap"@,
            *self == ReuseShortfall::DeadlineOrExhaustion ==> r@ == "run deadline or replay exhaustion"@,
            *self == ReuseShortfall::RoundingOrScarcity ==> r@ == "effective-batch rounding or insufficient trainable positions"@,
    {
        match self {
            ReuseShortfall::SafetyCap => "max_updates safety cap",
            ReuseShortfall::DeadlineOrExhaustion => "run deadline or replay exhaustion",
            ReuseShortfall::RoundingOrScarcity => "effective-batch rounding or insufficient trainable positions",
        }
    }
}

/// The first reason that explains a reuse shortfall: a binding safety cap,
/// then fewer updates than scheduled, then a reuse ratio below the required
/// share (`reuse_below_target`, a float comparison made by the caller).
pub fn reuse_shortfall(requested_updates: u64, scheduled_updates: u64, updates: Option<u64>, reuse_below_target: bool) -> (r: Option<ReuseShortfall>)
    ensures
        requested_updates > scheduled_updates ==> r == Some(ReuseShortfall::SafetyCap),
        requested_updates <= scheduled_updates && (updates matches Some(n) && n < scheduled_updates) ==> r == Some(
            ReuseShortfall::DeadlineOrExhaustion,
        ),
        requested_updates <= scheduled_updates && !(updates matches Some(n) && n < scheduled_updates) ==> r == (if reuse_below_target {
            Some(ReuseShortfall::RoundingOrScarcity)
        } else {
            None
        }),
{
    if requested_updates > scheduled_updates {
        Some(ReuseShortfall::SafetyCap)
    } else if match updates {
        Some(n) => n < scheduled_updates,
        None => false,
    } {
        Some(ReuseShortfall::DeadlineOrExhaustion)
    } else if reuse_below_target {
        Some(ReuseShortfall::RoundingOrScarcity)
    } else {
        None
    }
}

/// The planned updates a pilot schedules over: the resolved plan, never
/// shorter than the per-cycle cap times the cycles.
pub open spec fn pilot_planned_spec(c: RunConfig) -> u64 {
    let span = c.max_updates as int * (if c.cycles >= 1 { c.cycles as int } else { 1 });
    if planned_spec(c) as int >= span { planned_spec(c) } else { span as u64 }
}

/// `(warmup, planned)` of a pilot's learning-rate schedule.
pub fn pilot_schedule(cfg: &RunConfig) -> (r: (u64, u64))
    requires
        cfg.max_updates as int * (if cfg.cycles >= 1 { cfg.cycles as int } else { 1 }) <= u64::MAX,
    ensures
        r.1 == pilot_planned_spec(*cfg),
        r.0 == match cfg.warmup_updates {
            Some(w) => w,
            None => {
                let tenth = r.1 / 10;
                if tenth < 10 { 10 } else if tenth > 1000 { 1000 } else { tenth }
            },
        },
{
    assert(schedule_fits(*cfg));
    let resolved = cfg.resolved_planned_updates();
    let cycles: u64 = if cfg.cycles >= 1 { cfg.cycles as u64 } else { 1 };
    let span = cfg.max_updates as u64 * cycles;
    let planned = if resolved >= span { resolved } else { span };
    let warmup = match cfg.warmup_updates {
        Some(w) => w,
        None => {
            let tenth = planned / 10;
            if tenth < 10 { 10 } else if tenth > 1000 { 1000 } else { tenth }
        },
    };
    (warmup, planned)
}

/// The learner seed of a cycle: the run seed advanced by the cycle index.
pub fn cycle_seed(seed: u64, cycle: u32) -> (r: u64)
    ensures
        r == seed.wrapping_add(cycle as u64),
{
    seed.wrapping_add(cycle as u64)
}

/// How a pilot cycle starts.
#[derive(Debug, Clone, Copy, PartialEq, Eq, Structural)]
pub enum CycleStart {
    /// The cycle runs: its games get global ids from `game_id_base` on, and
    /// its candidate trains from `optimizer_step_start`.
    Run { game_id_base: u64, optimizer_step_start: u64 },
    /// The pilot stops with this status.
    Stop(PilotStatus),
}

/// The pilot's running totals.
#[derive(Debug, Clone, Copy, PartialEq, Eq, Structural)]
pub struct PilotLedger {
    /// Optimizer updates along the accepted (promoted) trajectory.
    pub cumulative_updates: u64,
    /// Positions collected across cycles.
    pub total_positions: u64,
    /// Games requested across cycles; the next cycle's first global game id.
    pub total_games_collected: u64,
}

impl PilotLedger {
    /// A fresh pilot.
    pub fn new() -> (l: Self)
        ensures
            l.cumulative_updates == 0,
            l.total_positions == 0,
            l.total_games_collected == 0,
    {
        PilotLedger { cumulative_updates: 0, total_positions: 0, total_games_collected: 0 }
    }

    /// A loaded parent snapshot continues the accepted trajectory only when
    /// both its update counter and its schedule step equal the cumulative
    /// updates.
    pub fn trajectory_matches(&self, update_counter: u64, lr_schedule_step: u64) -> (r: bool)
        ensures
            r == (update_counter == self.cumulative_updates && lr_schedule_step
                == self.cumulative_updates),
    {
        update_counter == self.cumulative_updates && lr_schedule_step == self.cumulative_updates
    }

    /// Account a collection of `games_requested` games holding `positions`
    /// positions.
    pub fn record_collection(&mut self, games_requested: u32, positions: u64)
        requires
            old(self).total_games_collected + games_requested <= u64::MAX,
            old(self).total_positions + positions <= u64::MAX,
        ensures
            final(self).total_games_collected == old(self).total_games_collected + games_requested,
            final(self).total_positions == old(self).total_positions + positions,
            final(self).cumulative_updates == old(self).cumulative_updates,
    {
        self.total_games_collected = self.total_games_collected + games_requested as u64;
        self.total_positions = self.total_positions + positions;
    }

    /// Start a cycle: stop with the pre-cycle check's status, or run with the next
    /// global game id and the accepted optimizer step as the cycle's start.
    pub fn begin_cycle(&self, cancelled: bool, past_deadline: bool, position_budget: Option<u64>) -> (r: CycleStart)
        ensures
            r == (match cycle_gate_spec(cancelled, past_deadline, position_budget, self.total_positions) {
                Some(status) => CycleStart::Stop(status),
                None => CycleStart::Run {
                    game_id_base: self.total_games_collected,
                    optimizer_step_start: self.cumulative_updates,
                },
            }),
    {
        match cycle_gate(cancelled, past_deadline, position_budget, self.total_positions) {
            Some(status) => CycleStart::Stop(status),
            None => CycleStart::Run {
                game_id_base: self.total_games_collected,
                optimizer_step_start: self.cumulative_updates,
            },
        }
    }

    /// Close a cycle's collection of `games` games out of `requested`,
    /// holding `positions` positions: the requested games always advance
    /// the next game id; a short collection stops the pilot before its
    /// positions are kept, a full one adds them.
    pub fn close_collection(&mut self, games: u64, requested: u32, positions: u64) -> (r: Option<PilotStatus>)
        requires
            old(self).total_games_collected + requested <= u64::MAX,
            old(self).total_positions + positions <= u64::MAX,
        ensures
            r == (if games < requested { Some(PilotStatus::BudgetExhaustedDuringCollect) } else { None }),
            final(self).total_games_collected == old(self).total_games_collected + requested,
            r is None ==> final(self).total_positions == old(self).total_positions + positions,
            r is Some ==> final(self).total_positions == old(self).total_positions,
            final(self).cumulative_updates == old(self).cumulative_updates,
    {
        self.total_games_collected = self.total_games_collected + requested as u64;
        let stop = collection_gate(games, requested);
        if stop.is_none() {
            self.total_positions = self.total_positions + positions;
        }
        stop
    }

    /// Apply a cycle's snapshot decision: a promoted candidate that trained
    /// `updates` updates from `optimizer_step_start` moves the accepted
    /// trajectory to `optimizer_step_start + updates`; otherwise it stays.
    pub fn apply_decision(&mut self, decision: SnapshotDecision, optimizer_step_start: u64, updates: u64)
        requires
            optimizer_step_start + updates <= u64::MAX,
        ensures
            decision == SnapshotDecision::Promote ==> final(self).cumulative_updates
                == optimizer_step_start + updates,
            decision == SnapshotDecision::Hold ==> final(self).cumulative_updates
                == old(self).cumulative_updates,
            final(self).total_positions == old(self).total_positions,
            final(self).total_games_collected == old(self).total_games_collected,
    {
        if decision == SnapshotDecision::Promote {
            self.cumulative_updates = optimizer_step_start + updates;
        }
    }
}

/// Under a frozen reference the accepted trajectory never moves: whatever a
/// cycle's health, arena and score, its decision is `Hold`, for the single
/// reason `FrozenReference`.
pub proof fn lemma_frozen_reference_never_promotes(
    healthy: bool,
    arena: ArenaTally,
    min_decisive_games: u32,
    score_above_half: bool,
    score_meets_floor: bool,
)
    ensures
        decision_spec(SnapshotPolicy::FrozenReference, healthy, arena, min_decisive_games, score_above_half, score_meets_floor)
            == SnapshotDecision::Hold,
        hold_reasons_spec(SnapshotPolicy::FrozenReference, healthy, arena, min_decisive_games, score_above_half, score_meets_floor)
            == seq![HoldReason::FrozenReference],
{
}

/// A frozen reference whose loaded model id differs from the configured one.
#[derive(Debug, Clone, PartialEq, Eq)]
pub struct ReferenceMismatch {
    pub expected: String,
    pub loaded: String,
}

/// A pilot starts from a reference checkpoint only when the configured
/// reference model id, if any, is the id of the loaded model.
pub fn check_reference_identity(configured: &Option<String>, loaded: &String) -> (r: Result<(), ReferenceMismatch>)
    ensures
        match configured {
            Some(id) => if id@ == loaded@ {
                r is Ok
            } else {
                r == Err::<(), ReferenceMismatch>(ReferenceMismatch { expected: *id, loaded: *loaded })
            },
            None => r is Ok,
        },
{
    match configured {
        Some(id) => if str_equal(id.as_str(), loaded.as_str()) {
            Ok(())
        } else {
            Err(ReferenceMismatch { expected: id.clone(), loaded: loaded.clone() })
        },
        None => Ok(()),
    }
}

/// One cycle's entry of the pilot lineage: the snapshot the cycle played
/// and trained from (its parent), the trained candidate, the snapshot after
/// the decision, the models that generated the cycle's replay, and the
/// optimizer steps the candidate trained over.
#[derive(Debug, Clone, PartialEq, Eq)]
pub struct LineageIds {
    pub parent_model_id: String,
    pub candidate_model_id: String,
    pub promoted_model_id: String,
    pub replay_model_ids: Vec<String>,
    pub optimizer_step_start: u64,
    pub optimizer_step_end: u64,
    pub decision: SnapshotDecision,
}

/// The accepted optimizer step after entry `row`: its end when promoted,
/// its start when held.
pub open spec fn accepted_after(row: LineageIds) -> u64 {
    if row.decision == SnapshotDecision::Promote { row.optimizer_step_end } else { row.optimizer_step_start }
}

/// The lineage law: the first cycle's parent is the reference and starts at
/// step zero; every cycle's replay was generated by its parent alone; a
/// cycle's promoted snapshot is its candidate when promoted and its parent
/// when held; and each later cycle's parent is the previous cycle's promoted
/// snapshot, trained from the previous cycle's accepted step.
pub open spec fn lineage_ok(reference: Seq<char>, rows: Seq<LineageIds>) -> bool {
    &&& rows.len() > 0 ==> rows[0].parent_model_id@ == reference && rows[0].optimizer_step_start == 0
    &&& forall|k: int|
        0 <= k < rows.len() ==> {
            &&& (#[trigger] rows[k]).replay_model_ids@.len() == 1
            &&& rows[k].replay_model_ids@[0]@ == rows[k].parent_model_id@
            &&& rows[k].promoted_model_id@ == (if rows[k].decision == SnapshotDecision::Promote {
                rows[k].candidate_model_id@
            } else {
                rows[k].parent_model_id@
            })
        }
    &&& forall|k: int|
        0 < k < rows.len() ==> (#[trigger] rows[k]).parent_model_id@ == rows[k - 1].promoted_model_id@
            && rows[k].optimizer_step_start == accepted_after(rows[k - 1])
}

/// The model chain of a pilot: the current self-play snapshot and its
/// accepted optimizer step, with the lineage recorded so far.
pub struct PilotLineage {
    parent_model_id: String,
    accepted_step: u64,
    reference: Ghost<Seq<char>>,
    rows: Ghost<Seq<LineageIds>>,
}

impl PilotLineage {
    /// The reference model id the pilot started from.
    pub closed spec fn reference(&self) -> Seq<char> {
        self.reference@
    }

    /// The lineage entries recorded so far.
    pub closed spec fn rows(&self) -> Seq<LineageIds> {
        self.rows@
    }

    /// The current self-play snapshot.
    pub closed spec fn parent(&self) -> Seq<char> {
        self.parent_model_id@
    }

    /// The current accepted optimizer step.
    pub closed spec fn accepted(&self) -> u64 {
        self.accepted_step
    }

    #[verifier::type_invariant]
    closed spec fn chained(&self) -> bool {
        &&& lineage_ok(self.reference@, self.rows@)
        &&& self.rows@.len() == 0 ==> self.parent_model_id@ == self.reference@ && self.accepted_step == 0
        &&& self.rows@.len() > 0 ==> self.parent_model_id@ == self.rows@.last().promoted_model_id@
            && self.accepted_step == accepted_after(self.rows@.last())
    }

    /// A pilot starting from the reference model `reference_model_id` at
    /// optimizer step zero.
    pub fn new(reference_model_id: String) -> (l: Self)
        ensures
            l.reference() == reference_model_id@,
            l.rows().len() == 0,
            l.parent() == reference_model_id@,
            l.accepted() == 0,
    {
        let ghost r = reference_model_id@;
        PilotLineage { parent_model_id: reference_model_id, accepted_step: 0, reference: Ghost(r), rows: Ghost(Seq::empty()) }
    }

    /// The current self-play snapshot.
    pub fn parent_model_id(&self) -> (r: &String)
        ensures
            r@ == self.parent(),
    {
        &self.parent_model_id
    }

    /// Close a cycle whose candidate `candidate_model_id` trained `updates`
    /// updates from the accepted step, under `decision`: record its lineage
    /// entry and move the snapshot and the accepted step when promoted.
    pub fn close_cycle(&mut self, candidate_model_id: String, decision: SnapshotDecision, updates: u64) -> (row: LineageIds)
        requires
            old(self).accepted() + updates <= u64::MAX,
        ensures
            row.parent_model_id@ == old(self).parent(),
            row.candidate_model_id == candidate_model_id,
            row.decision == decision,
            row.optimizer_step_start == old(self).accepted(),
            row.optimizer_step_end == old(self).accepted() + updates,
            final(self).rows() == old(self).rows().push(row),
            final(self).reference() == old(self).reference(),
            final(self).parent() == row.promoted_model_id@,
            final(self).accepted() == accepted_after(row),
            lineage_ok(final(self).reference(), final(self).rows()),
    {
        proof {
            use_type_invariant(&*self);
        }
        let start = self.accepted_step;
        let end = start + updates;
        let parent = self.parent_model_id.clone();
        let mut replay_model_ids: Vec<String> = Vec::new();
        replay_model_ids.push(parent.clone());
        let promoted = if decision == SnapshotDecision::Promote { candidate_model_id.clone() } else { parent.clone() };
        let row = LineageIds {
            parent_model_id: parent,
            candidate_model_id,
            promoted_model_id: promoted.clone(),
            replay_model_ids,
            optimizer_step_start: start,
            optimizer_step_end: end,
            decision,
        };
        let ghost rows2 = self.rows@.push(row);
        assert(rows2.last() == row);
        assert forall|k: int| 0 <= k < self.rows@.len() implies #[trigger] rows2[k] == self.rows@[k] by {}
        let accepted = if decision == SnapshotDecision::Promote { end } else { start };
        let ghost r = self.reference@;
        *self = PilotLineage { parent_model_id: promoted, accepted_step: accepted, reference: Ghost(r), rows: Ghost(rows2) };
        row
    }
}

} // verus!
