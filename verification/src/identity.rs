//! The scientific identity of a run: the settings that define the
//! experiment, as opposed to how one machine schedules it. Left out on
//! purpose: the device, concurrency and worker count, inference batch cap
//! and timeout, hardware and model profile labels, the run id, and the
//! wall-clock and position budgets. The model shape, the optimizer contract
//! and the fixed contract labels (seed policy, sampler, promotion rule) are
//! written beside it by the caller.

use vstd::prelude::*;

use crate::config::{
    collection_shape_spec, effective_batch_spec, planned_spec, schedule_fits, warmup_spec, ConfigError,
    RunConfig, SnapshotPolicy,
};

verus! {

/// Version of the identity layout.
pub const IDENTITY_VERSION: u32 = 3;

/// The replay sampler contract named in the identity.
pub const SAMPLER_CONTRACT: &'static str = "shard_recency_weight_index_plus_1_v1";

/// The experiment-defining settings of a run (float settings as bits).
#[derive(Debug, Clone, PartialEq, Eq)]
pub struct ScientificIdentity {
    pub identity_version: u32,
    pub recurrence: usize,
    pub precision: String,
    pub reference_model_id: Option<String>,
    pub seed: u64,
    pub simulations_per_move: u32,
    pub c_puct: u32,
    pub temperature: u32,
    pub argmax_after_ply: Option<u32>,
    pub ply_cap: u32,
    pub start_fen: Option<String>,
    /// Games collected per cycle.
    pub games_per_cycle: u32,
    pub lr: u64,
    pub effective_batch: usize,
    pub warmup_updates: u64,
    pub planned_updates: u64,
    pub replay_reuse_target: u64,
    pub max_positions: u64,
    pub shard_max_games: usize,
    /// Digest of the evaluation opening suite (`None`: standard start).
    pub opening_suite_digest: Option<String>,
    pub arena_games: u32,
    pub snapshot_policy: SnapshotPolicy,
    pub score_floor: u64,
    pub min_decisive_games: u32,
}

/// The identity of `c` with opening-suite digest `digest`, or why the
/// collection settings are refused.
pub open spec fn identity_spec(c: RunConfig, digest: Option<String>) -> Result<ScientificIdentity, ConfigError> {
    match collection_shape_spec(c) {
        Err(e) => Err(e),
        Ok((games, _)) => Ok(ScientificIdentity {
            identity_version: IDENTITY_VERSION,
            recurrence: c.recurrence,
            precision: c.precision,
            reference_model_id: c.reference_model_id,
            seed: c.seed,
            simulations_per_move: c.simulations_per_move,
            c_puct: c.c_puct,
            temperature: c.temperature,
            argmax_after_ply: c.argmax_after_ply,
            ply_cap: c.ply_cap,
            start_fen: c.start_fen,
            games_per_cycle: games,
            lr: c.lr,
            effective_batch: effective_batch_spec(c) as usize,
            warmup_updates: warmup_spec(c),
            planned_updates: planned_spec(c),
            replay_reuse_target: c.replay_reuse_target,
            max_positions: c.replay_max_positions,
            shard_max_games: c.shard_max_games,
            opening_suite_digest: digest,
            arena_games: c.arena_games,
            snapshot_policy: c.snapshot_policy,
            score_floor: c.promotion_score_floor,
            min_decisive_games: c.promotion_min_decisive_games,
        }),
    }
}

fn clone_opt(s: &Option<String>) -> (r: Option<String>)
    ensures
        r == *s,
{
    match s {
        Some(v) => Some(v.clone()),
        None => None,
    }
}

impl RunConfig {
    /// The scientific identity of this configuration, given the digest of
    /// its opening suite.
    pub fn scientific_identity(&self, opening_suite_digest: Option<String>) -> (r: Result<ScientificIdentity, ConfigError>)
        requires
            schedule_fits(*self),
            effective_batch_spec(*self) <= usize::MAX,
        ensures
            r == identity_spec(*self, opening_suite_digest),
    {
        let (warmup, planned) = self.lr_schedule();
        let games = match self.collection_shape() {
            Ok((g, _)) => g,
            Err(e) => {
                return Err(e);
            },
        };
        Ok(ScientificIdentity {
            identity_version: IDENTITY_VERSION,
            recurrence: self.recurrence,
            precision: self.precision.clone(),
            reference_model_id: clone_opt(&self.reference_model_id),
            seed: self.seed,
            simulations_per_move: self.simulations_per_move,
            c_puct: self.c_puct,
            temperature: self.temperature,
            argmax_after_ply: self.argmax_after_ply,
            ply_cap: self.ply_cap,
            start_fen: clone_opt(&self.start_fen),
            games_per_cycle: games,
            lr: self.lr,
            effective_batch: self.effective_batch(),
            warmup_updates: warmup,
            planned_updates: planned,
            replay_reuse_target: self.replay_reuse_target,
            max_positions: self.replay_max_positions,
            shard_max_games: self.shard_max_games,
            opening_suite_digest,
            arena_games: self.arena_games,
            snapshot_policy: self.snapshot_policy,
            score_floor: self.promotion_score_floor,
            min_decisive_games: self.promotion_min_decisive_games,
        })
    }
}

/// The identity records a configuration's own settings: each scientific
/// setting of the identity (learning rate, seed, search, ply cap, start
/// position, replay reuse target and capacity, shard size, arena and
/// promotion settings, precision, recurrence, reference model) is that of
/// the configuration, the games per cycle are its resolved collection size,
/// and the digest is the opening suite's.
pub proof fn lemma_identity_records_the_settings(c: RunConfig, digest: Option<String>)
    requires
        collection_shape_spec(c) is Ok,
    ensures
        identity_spec(c, digest) is Ok,
        ({
            let id = identity_spec(c, digest)->Ok_0;
            &&& id.identity_version == IDENTITY_VERSION
            &&& id.games_per_cycle == collection_shape_spec(c)->Ok_0.0
            &&& id.opening_suite_digest == digest
            &&& id.recurrence == c.recurrence
            &&& id.precision == c.precision
            &&& id.reference_model_id == c.reference_model_id
            &&& id.seed == c.seed
            &&& id.simulations_per_move == c.simulations_per_move
            &&& id.c_puct == c.c_puct
            &&& id.temperature == c.temperature
            &&& id.argmax_after_ply == c.argmax_after_ply
            &&& id.ply_cap == c.ply_cap
            &&& id.start_fen == c.start_fen
            &&& id.lr == c.lr
            &&& id.replay_reuse_target == c.replay_reuse_target
            &&& id.max_positions == c.replay_max_positions
            &&& id.shard_max_games == c.shard_max_games
            &&& id.arena_games == c.arena_games
            &&& id.snapshot_policy == c.snapshot_policy
            &&& id.score_floor == c.promotion_score_floor
            &&& id.min_decisive_games == c.promotion_min_decisive_games
        }),
{
}

/// Configurations that differ in any recorded scientific setting, or whose
/// opening suites differ, have different identities: in particular two runs
/// that differ only in learning rate are told apart.
pub proof fn lemma_identity_separates_settings(c1: RunConfig, d1: Option<String>, c2: RunConfig, d2: Option<String>)
    requires
        collection_shape_spec(c1) is Ok,
        collection_shape_spec(c2) is Ok,
        c1.recurrence != c2.recurrence || c1.precision != c2.precision || c1.reference_model_id != c2.reference_model_id || c1.seed != c2.seed || c1.simulations_per_move != c2.simulations_per_move || c1.c_puct != c2.c_puct || c1.temperature != c2.temperature || c1.argmax_after_ply != c2.argmax_after_ply || c1.ply_cap != c2.ply_cap || c1.start_fen != c2.start_fen || c1.lr != c2.lr || c1.replay_reuse_target != c2.replay_reuse_target || c1.replay_max_positions != c2.replay_max_positions || c1.shard_max_games != c2.shard_max_games || c1.arena_games != c2.arena_games || c1.snapshot_policy != c2.snapshot_policy || c1.promotion_score_floor != c2.promotion_score_floor || c1.promotion_min_decisive_games != c2.promotion_min_decisive_games || d1 != d2,
    ensures
        identity_spec(c1, d1) != identity_spec(c2, d2),
{
    lemma_identity_records_the_settings(c1, d1);
    lemma_identity_records_the_settings(c2, d2);
}

/// `c` run under another schedule: another device, concurrency, worker
/// count, inference batch cap and timeout, profile labels, budgets and run id.
pub open spec fn rescheduled(
    c: RunConfig,
    run_id: String,
    device: String,
    concurrent_games: Option<u32>,
    cpu_workers: usize,
    max_inference_batch: usize,
    batch_timeout_us: u64,
    hardware_profile: Option<String>,
    model_profile: Option<String>,
    run_budget_minutes: u64,
    position_budget: Option<u64>,
) -> RunConfig {
    RunConfig {
        run_id,
        device,
        concurrent_games,
        cpu_workers,
        max_inference_batch,
        batch_timeout_us,
        hardware_profile,
        model_profile,
        run_budget_minutes,
        position_budget,
        ..c
    }
}

/// Scheduling does not enter the identity: a configuration and any
/// rescheduling of it that both resolve a valid collection have the same
/// scientific identity.
pub proof fn lemma_identity_ignores_scheduling(
    c: RunConfig,
    run_id: String,
    device: String,
    concurrent_games: Option<u32>,
    cpu_workers: usize,
    max_inference_batch: usize,
    batch_timeout_us: u64,
    hardware_profile: Option<String>,
    model_profile: Option<String>,
    run_budget_minutes: u64,
    position_budget: Option<u64>,
    digest: Option<String>,
)
    requires
        collection_shape_spec(c) is Ok,
        collection_shape_spec(
            rescheduled(
                c,
                run_id,
                device,
                concurrent_games,
                cpu_workers,
                max_inference_batch,
                batch_timeout_us,
                hardware_profile,
                model_profile,
                run_budget_minutes,
                position_budget,
            ),
        ) is Ok,
    ensures
        identity_spec(c, digest) == identity_spec(
            rescheduled(
                c,
                run_id,
                device,
                concurrent_games,
                cpu_workers,
                max_inference_batch,
                batch_timeout_us,
                hardware_profile,
                model_profile,
                run_budget_minutes,
                position_budget,
            ),
            digest,
        ),
{
}

} // verus!
