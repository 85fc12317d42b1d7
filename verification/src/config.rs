//! Run configuration: the resolved integer, label and schedule settings of a
//! run, their defaults, and the rules that derive a collection shape, an
//! effective batch and a learning-rate schedule from them.
//!
//! The floating-point hyper-parameters (c_puct, temperature, learning rate,
//! reuse target, promotion score floor) and the model shape travel beside
//! this configuration; everything computed here is integer.

use vstd::prelude::*;

use crate::text::{
    all_digits, ascii_lower, ascii_lower_seq, contains_seq, ends_with_seq, occurs_at, str_equal,
};

verus! {

/// Stable contract for deriving a self-play game's RNG seed from its global
/// game id.
pub const SELFPLAY_SEED_POLICY: &'static str = "base_seed_plus_global_game_id_v1";

/// Version of the conservative promotion rule.
pub const PROMOTION_RULE_VERSION: &'static str = "conservative-v2:audit_ok,inference_errors=0,updates>0,finite_metrics,achieved_reuse>=0.8*target,decisive>=min_decisive,parent_score>0.5,parent_score>=floor";

/// Default PUCT constant: one, as `f32` bits.
pub const DEFAULT_C_PUCT_BITS: u32 = 0x3F80_0000;

/// Default self-play temperature: one, as `f32` bits.
pub const DEFAULT_TEMPERATURE_BITS: u32 = 0x3F80_0000;

/// Default peak learning rate: three ten-thousandths, as `f64` bits.
pub const DEFAULT_LR_BITS: u64 = 0x3F33_A92A_3055_3261;

/// Default replay reuse target: two, as `f64` bits.
pub const DEFAULT_REUSE_TARGET_BITS: u64 = 0x4000_0000_0000_0000;

/// Default promotion score floor: thirty-five hundredths, as `f64` bits.
pub const DEFAULT_SCORE_FLOOR_BITS: u64 = 0x3FD6_6666_6666_6666;

/// Default recurrence.
pub fn default_recurrence() -> (r: usize)
    ensures r == 1,
{
    1
}

/// Default simulations per move.
pub fn default_simulations() -> (r: u32)
    ensures r == 16,
{
    16
}

/// Default (legacy) active games.
pub fn default_active_games() -> (r: u32)
    ensures r == 32,
{
    32
}

/// Default self-play worker threads.
pub fn default_cpu_workers() -> (r: usize)
    ensures r == 8,
{
    8
}

/// Default ply cap.
pub fn default_ply_cap() -> (r: u32)
    ensures r == 256,
{
    256
}

/// Default inference batch cap.
pub fn default_max_batch() -> (r: usize)
    ensures r == 32,
{
    32
}

/// Default inference batch timeout in microseconds.
pub fn default_batch_timeout_us() -> (r: u64)
    ensures r == 500,
{
    500
}

/// Default games per shard.
pub fn default_shard_max_games() -> (r: usize)
    ensures r == 256,
{
    256
}

/// Default physical training batch.
pub fn default_train_batch() -> (r: usize)
    ensures r == 32,
{
    32
}

/// Default update cap per cycle.
pub fn default_max_updates() -> (r: usize)
    ensures r == 10,
{
    10
}

/// Default arena games.
pub fn default_arena_games() -> (r: u32)
    ensures r == 4,
{
    4
}

/// Default wall-clock budget in minutes.
pub fn default_budget_minutes() -> (r: u64)
    ensures r == 10,
{
    10
}

/// Default precision label.
pub fn default_precision() -> (r: String)
    ensures r@ == seq!['f', 'p', '3', '2'],
{
    proof {
        reveal_strlit("fp32");
    }
    String::from_str("fp32")
}

/// Default device label.
pub fn default_device() -> (r: String)
    ensures r@ == seq!['c', 'p', 'u'],
{
    proof {
        reveal_strlit("cpu");
    }
    String::from_str("cpu")
}

/// Default seed.
pub fn default_seed() -> (r: u64)
    ensures r == 1,
{
    1
}

/// Default pilot cycles.
pub fn default_cycles() -> (r: u32)
    ensures r == 1,
{
    1
}

/// Default replay capacity in positions.
pub fn default_replay_max_positions() -> (r: u64)
    ensures r == 100_000,
{
    100_000
}

/// Default gradient-accumulation steps.
pub fn default_accumulation_steps() -> (r: usize)
    ensures r == 4,
{
    4
}

/// Default decisive parent-arena games required before promotion.
pub fn default_min_decisive_games() -> (r: u32)
    ensures r == 4,
{
    4
}

/// How the self-play snapshot is chosen between cycles.
#[derive(Debug, Clone, Copy, PartialEq, Eq, Structural)]
pub enum SnapshotPolicy {
    /// The candidate becomes the next self-play snapshot only if all health
    /// gates pass and the arena score is not below the promotion floor.
    Conservative,
    /// Always keep the initial reference as the self-play snapshot.
    FrozenReference,
}

impl Default for SnapshotPolicy {
    fn default() -> (r: Self)
        ensures
            r == SnapshotPolicy::Conservative,
    {
        SnapshotPolicy::Conservative
    }
}

/// Compute device.
#[derive(Debug, Clone, Copy, PartialEq, Eq, Structural)]
pub enum DeviceKind {
    Cpu,
    Cuda,
}

/// Numeric precision.
#[derive(Debug, Clone, Copy, PartialEq, Eq, Structural)]
pub enum Precision {
    Fp32,
    Bf16,
    Fp16,
}

/// Why a configuration was refused.
#[derive(Debug, Clone, PartialEq, Eq)]
pub enum ConfigError {
    /// Exactly one of `games_per_cycle` and `concurrent_games` is set.
    UnpairedCollection,
    /// A collection count or `cpu_workers` is zero.
    NonPositiveCollection,
    /// The device label is neither `cpu` nor `cuda`.
    UnknownDevice(String),
    /// The precision label is not `fp32`, `bf16` or `fp16`.
    UnknownPrecision(String),
    /// A game count does not fit in 32 bits.
    GamesOutOfRange,
}

/// A resolved run configuration (integer, label and schedule settings).
#[derive(Debug, PartialEq, Eq)]
pub struct RunConfig {
    pub run_id: String,
    pub recurrence: usize,
    pub precision: String,
    pub device: String,
    pub simulations_per_move: u32,
    /// PUCT exploration constant (`f32` bits).
    pub c_puct: u32,
    /// Self-play move-selection temperature (`f32` bits).
    pub temperature: u32,
    /// Legacy total-game count and concurrency request.
    pub active_games: u32,
    /// Total games to collect in one cycle (paired with `concurrent_games`).
    pub games_per_cycle: Option<u32>,
    /// Maximum simultaneous games (paired with `games_per_cycle`).
    pub concurrent_games: Option<u32>,
    pub cpu_workers: usize,
    pub ply_cap: u32,
    pub seed: u64,
    pub max_inference_batch: usize,
    pub batch_timeout_us: u64,
    pub shard_max_games: usize,
    pub train_batch: usize,
    pub max_updates: usize,
    /// Peak learning rate (`f64` bits).
    pub lr: u64,
    pub arena_games: u32,
    pub run_budget_minutes: u64,
    pub start_fen: Option<String>,
    pub cycles: u32,
    pub position_budget: Option<u64>,
    pub replay_max_positions: u64,
    /// Target `examples_consumed / new_positions_inserted` (`f64` bits).
    pub replay_reuse_target: u64,
    pub warmup_updates: Option<u64>,
    pub planned_updates: Option<u64>,
    pub accumulation_steps: usize,
    pub argmax_after_ply: Option<u32>,
    pub opening_suite: Option<String>,
    pub snapshot_policy: SnapshotPolicy,
    /// Arena score floor for conservative promotion (`f64` bits).
    pub promotion_score_floor: u64,
    pub promotion_min_decisive_games: u32,
    pub reference_checkpoint: Option<String>,
    pub reference_model_id: Option<String>,
    pub hardware_profile: Option<String>,
    pub model_profile: Option<String>,
}

fn clone_opt(s: &Option<String>) -> (r: Option<String>)
    ensures
        r == *s,
{
    match s {
        Some(v) => Some(v.clone()),
        None => None,
    }
}

impl Clone for RunConfig {
    fn clone(&self) -> (r: Self)
        ensures
            r == *self,
    {
        RunConfig {
            run_id: self.run_id.clone(),
            recurrence: self.recurrence,
            precision: self.precision.clone(),
            device: self.device.clone(),
            simulations_per_move: self.simulations_per_move,
            c_puct: self.c_puct,
            temperature: self.temperature,
            active_games: self.active_games,
            games_per_cycle: self.games_per_cycle,
            concurrent_games: self.concurrent_games,
            cpu_workers: self.cpu_workers,
            ply_cap: self.ply_cap,
            seed: self.seed,
            max_inference_batch: self.max_inference_batch,
            batch_timeout_us: self.batch_timeout_us,
            shard_max_games: self.shard_max_games,
            train_batch: self.train_batch,
            max_updates: self.max_updates,
            lr: self.lr,
            arena_games: self.arena_games,
            run_budget_minutes: self.run_budget_minutes,
            start_fen: clone_opt(&self.start_fen),
            cycles: self.cycles,
            position_budget: self.position_budget,
            replay_max_positions: self.replay_max_positions,
            replay_reuse_target: self.replay_reuse_target,
            warmup_updates: self.warmup_updates,
            planned_updates: self.planned_updates,
            accumulation_steps: self.accumulation_steps,
            argmax_after_ply: self.argmax_after_ply,
            opening_suite: clone_opt(&self.opening_suite),
            snapshot_policy: self.snapshot_policy,
            promotion_score_floor: self.promotion_score_floor,
            promotion_min_decisive_games: self.promotion_min_decisive_games,
            reference_checkpoint: clone_opt(&self.reference_checkpoint),
            reference_model_id: clone_opt(&self.reference_model_id),
            hardware_profile: clone_opt(&self.hardware_profile),
            model_profile: clone_opt(&self.model_profile),
        }
    }
}

/// The resolved `(games_total, concurrency)` of one collection.
pub open spec fn collection_shape_spec(c: RunConfig) -> Result<(u32, usize), ConfigError> {
    let shape: Option<(u32, nat)> = match (c.games_per_cycle, c.concurrent_games) {
        (Some(g), Some(k)) => Some((g, vstd::math::min(vstd::math::min(k as int, c.cpu_workers as int), g as int) as nat)),
        (None, None) => Some((c.active_games, c.active_games as nat)),
        _ => None,
    };
    match shape {
        None => Err(ConfigError::UnpairedCollection),
        Some((games, concurrency)) => if games > 0 && concurrency > 0 && c.cpu_workers > 0 {
            Ok((games, concurrency as usize))
        } else {
            Err(ConfigError::NonPositiveCollection)
        },
    }
}

/// `max(x, 1)`.
pub open spec fn at_least_one(x: int) -> int {
    if x >= 1 { x } else { 1 }
}

/// Effective training batch: physical batch times accumulation steps.
pub open spec fn effective_batch_spec(c: RunConfig) -> int {
    at_least_one(c.train_batch as int) * at_least_one(c.accumulation_steps as int)
}

/// Planned updates of the schedule: explicit, or the legacy derivation
/// `max_updates * cycles` spanning the pilot; never below one.
pub open spec fn planned_spec(c: RunConfig) -> u64 {
    let p: int = match c.planned_updates {
        Some(p) => p as int,
        None => c.max_updates as int * at_least_one(c.cycles as int),
    };
    at_least_one(p) as u64
}

/// Warmup updates of the schedule: explicit, or ~10% of the planned updates
/// clamped to `[10, 1000]`.
pub open spec fn warmup_spec(c: RunConfig) -> u64 {
    match c.warmup_updates {
        Some(w) => w,
        None => {
            let tenth = planned_spec(c) / 10;
            if tenth < 10 { 10 } else if tenth > 1000 { 1000 } else { tenth }
        },
    }
}

/// True when the legacy schedule derivation fits in 64 bits.
pub open spec fn schedule_fits(c: RunConfig) -> bool {
    c.planned_updates is Some || c.max_updates as int * at_least_one(c.cycles as int) <= u64::MAX
}

impl RunConfig {
    /// A configuration that sets `run_id` and leaves every other setting at
    /// its default (what a config file that omits them resolves to).
    pub fn with_defaults(run_id: String) -> (c: Self)
        ensures
            c.run_id == run_id,
            c.recurrence == 1,
            c.precision@ == seq!['f', 'p', '3', '2'],
            c.device@ == seq!['c', 'p', 'u'],
            c.simulations_per_move == 16,
            c.c_puct == DEFAULT_C_PUCT_BITS,
            c.temperature == DEFAULT_TEMPERATURE_BITS,
            c.active_games == 32,
            c.games_per_cycle is None,
            c.concurrent_games is None,
            c.cpu_workers == 8,
            c.ply_cap == 256,
            c.seed == 1,
            c.max_inference_batch == 32,
            c.batch_timeout_us == 500,
            c.shard_max_games == 256,
            c.train_batch == 32,
            c.max_updates == 10,
            c.lr == DEFAULT_LR_BITS,
            c.arena_games == 4,
            c.run_budget_minutes == 10,
            c.start_fen is None,
            c.cycles == 1,
            c.position_budget is None,
            c.replay_max_positions == 100_000,
            c.replay_reuse_target == DEFAULT_REUSE_TARGET_BITS,
            c.warmup_updates is None,
            c.planned_updates is None,
            c.accumulation_steps == 4,
            c.argmax_after_ply is None,
            c.opening_suite is None,
            c.snapshot_policy == SnapshotPolicy::Conservative,
            c.promotion_score_floor == DEFAULT_SCORE_FLOOR_BITS,
            c.promotion_min_decisive_games == 4,
            c.reference_checkpoint is None,
            c.reference_model_id is None,
            c.hardware_profile is None,
            c.model_profile is None,
    {
        RunConfig {
            run_id,
            recurrence: default_recurrence(),
            precision: default_precision(),
            device: default_device(),
            simulations_per_move: default_simulations(),
            c_puct: DEFAULT_C_PUCT_BITS,
            temperature: DEFAULT_TEMPERATURE_BITS,
            active_games: default_active_games(),
            games_per_cycle: None,
            concurrent_games: None,
            cpu_workers: default_cpu_workers(),
            ply_cap: default_ply_cap(),
            seed: default_seed(),
            max_inference_batch: default_max_batch(),
            batch_timeout_us: default_batch_timeout_us(),
            shard_max_games: default_shard_max_games(),
            train_batch: default_train_batch(),
            max_updates: default_max_updates(),
            lr: DEFAULT_LR_BITS,
            arena_games: default_arena_games(),
            run_budget_minutes: default_budget_minutes(),
            start_fen: None,
            cycles: default_cycles(),
            position_budget: None,
            replay_max_positions: default_replay_max_positions(),
            replay_reuse_target: DEFAULT_REUSE_TARGET_BITS,
            warmup_updates: None,
            planned_updates: None,
            accumulation_steps: default_accumulation_steps(),
            argmax_after_ply: None,
            opening_suite: None,
            snapshot_policy: SnapshotPolicy::Conservative,
            promotion_score_floor: DEFAULT_SCORE_FLOOR_BITS,
            promotion_min_decisive_games: default_min_decisive_games(),
            reference_checkpoint: None,
            reference_model_id: None,
            hardware_profile: None,
            model_profile: None,
        }
    }

    /// Effective training batch = physical batch * accumulation steps.
    pub fn effective_batch(&self) -> (r: usize)
        requires
            effective_batch_spec(*self) <= usize::MAX,
        ensures
            r == effective_batch_spec(*self),
    {
        let b = if self.train_batch >= 1 { self.train_batch } else { 1 };
        let a = if self.accumulation_steps >= 1 { self.accumulation_steps } else { 1 };
        b * a
    }

    /// Resolved `(games_total, concurrency)` for one collection. An explicit
    /// `games_per_cycle`/`concurrent_games` pair has its concurrency capped by
    /// `cpu_workers` and by the game count; a legacy config (neither set)
    /// uses `active_games` as both total and concurrency.
    pub fn collection_shape(&self) -> (r: Result<(u32, usize), ConfigError>)
        ensures
            r == collection_shape_spec(*self),
    {
        let (games, concurrency): (u32, usize) = match (self.games_per_cycle, self.concurrent_games) {
            (Some(g), Some(c)) => {
                let k = c as usize;
                let k = if k < self.cpu_workers { k } else { self.cpu_workers };
                let k = if k < g as usize { k } else { g as usize };
                (g, k)
            },
            (None, None) => (self.active_games, self.active_games as usize),
            _ => {
                return Err(ConfigError::UnpairedCollection);
            },
        };
        if !(games > 0 && concurrency > 0 && self.cpu_workers > 0) {
            return Err(ConfigError::NonPositiveCollection);
        }
        Ok((games, concurrency))
    }

    /// `(warmup_updates, planned_updates)` used by every learner path. An
    /// explicit `planned_updates` is used as-is; otherwise it spans the pilot
    /// (`max_updates * cycles`).
    pub fn lr_schedule(&self) -> (r: (u64, u64))
        requires
            schedule_fits(*self),
        ensures
            r == (warmup_spec(*self), planned_spec(*self)),
    {
        let cycles: u64 = if self.cycles >= 1 { self.cycles as u64 } else { 1 };
        let raw: u64 = match self.planned_updates {
            Some(p) => p,
            None => {
                assert(self.max_updates as int * cycles as int <= u64::MAX);
                self.max_updates as u64 * cycles
            },
        };
        let planned = if raw >= 1 { raw } else { 1 };
        let warmup = match self.warmup_updates {
            Some(w) => w,
            None => {
                let tenth = planned / 10;
                if tenth < 10 { 10 } else if tenth > 1000 { 1000 } else { tenth }
            },
        };
        (warmup, planned)
    }

    /// Resolved warmup updates for the schedule. A derived warmup is always
    /// within `[10, 1000]`.
    pub fn resolved_warmup(&self) -> (r: u64)
        requires
            schedule_fits(*self),
        ensures
            r == warmup_spec(*self),
            self.warmup_updates is None ==> 10 <= r <= 1000,
    {
        self.lr_schedule().0
    }

    /// Resolved planned updates for the cosine schedule.
    pub fn resolved_planned_updates(&self) -> (r: u64)
        requires
            schedule_fits(*self),
        ensures
            r == planned_spec(*self),
    {
        self.lr_schedule().1
    }

    /// Parse the device label.
    pub fn device_kind(&self) -> (r: Result<DeviceKind, ConfigError>)
        ensures
            self.device@ == seq!['c', 'p', 'u'] ==> r == Ok::<DeviceKind, ConfigError>(DeviceKind::Cpu),
            self.device@ == seq!['c', 'u', 'd', 'a'] ==> r == Ok::<DeviceKind, ConfigError>(DeviceKind::Cuda),
            self.device@ != seq!['c', 'p', 'u'] && self.device@ != seq!['c', 'u', 'd', 'a'] ==> (r is Err
                && r->Err_0 == ConfigError::UnknownDevice(self.device)),
    {
        proof {
            reveal_strlit("cpu");
            reveal_strlit("cuda");
        }
        let cpu = "cpu";
        let cuda = "cuda";
        assert(cpu@ == seq!['c', 'p', 'u']);
        assert(cuda@ == seq!['c', 'u', 'd', 'a']);
        if str_equal(self.device.as_str(), cpu) {
            Ok(DeviceKind::Cpu)
        } else if str_equal(self.device.as_str(), cuda) {
            Ok(DeviceKind::Cuda)
        } else {
            Err(ConfigError::UnknownDevice(self.device.clone()))
        }
    }

    /// Parse the precision label.
    pub fn precision_kind(&self) -> (r: Result<Precision, ConfigError>)
        ensures
            self.precision@ == seq!['f', 'p', '3', '2'] ==> r == Ok::<Precision, ConfigError>(Precision::Fp32),
            self.precision@ == seq!['b', 'f', '1', '6'] ==> r == Ok::<Precision, ConfigError>(Precision::Bf16),
            self.precision@ == seq!['f', 'p', '1', '6'] ==> r == Ok::<Precision, ConfigError>(Precision::Fp16),
            self.precision@ != seq!['f', 'p', '3', '2'] && self.precision@ != seq!['b', 'f', '1', '6']
                && self.precision@ != seq!['f', 'p', '1', '6'] ==> (r is Err && r->Err_0
                == ConfigError::UnknownPrecision(self.precision)),
    {
        proof {
            reveal_strlit("fp32");
            reveal_strlit("bf16");
            reveal_strlit("fp16");
        }
        let fp32 = "fp32";
        let bf16 = "bf16";
        let fp16 = "fp16";
        assert(fp32@ == seq!['f', 'p', '3', '2']);
        assert(bf16@ == seq!['b', 'f', '1', '6']);
        assert(fp16@ == seq!['f', 'p', '1', '6']);
        if str_equal(self.precision.as_str(), fp32) {
            Ok(Precision::Fp32)
        } else if str_equal(self.precision.as_str(), bf16) {
            Ok(Precision::Bf16)
        } else if str_equal(self.precision.as_str(), fp16) {
            Ok(Precision::Fp16)
        } else {
            Err(ConfigError::UnknownPrecision(self.precision.clone()))
        }
    }
}

/// `"nvrtc"`.
pub open spec fn nvrtc_pat() -> Seq<char> {
    seq!['n', 'v', 'r', 't', 'c']
}

/// `".dll"`.
pub open spec fn dll_pat() -> Seq<char> {
    seq!['.', 'd', 'l', 'l']
}

/// `".so"`.
pub open spec fn so_pat() -> Seq<char> {
    seq!['.', 's', 'o']
}

/// True when a file name is any NVRTC shared library (ASCII case-insensitive).
pub open spec fn is_nvrtc_spec(name: Seq<char>) -> bool {
    let n = ascii_lower_seq(name);
    contains_seq(n, nvrtc_pat()) && (ends_with_seq(n, dll_pat()) || contains_seq(n, so_pat()))
}

fn lower_char(c: char) -> (r: char)
    ensures
        r == ascii_lower(c),
{
    if 'A' <= c && c <= 'Z' {
        ((c as u8) + 32) as char
    } else {
        c
    }
}

fn occurs_at_exec(s: &Vec<char>, pat: &[char], at: usize) -> (r: bool)
    requires
        at + pat@.len() <= s@.len(),
    ensures
        r == occurs_at(s@, pat@, at as int),
{
    let len = s.len();
    let mut k: usize = 0;
    while k < pat.len()
        invariant
            len == s@.len(),
            k <= pat@.len(),
            at + pat@.len() <= s@.len(),
            forall|t: int| 0 <= t < k ==> s@[at + t] == pat@[t],
        decreases pat.len() - k,
    {
        if s[at + k] != pat[k] {
            assert(s@.subrange(at as int, at + pat@.len())[k as int] != pat@[k as int]);
            return false;
        }
        k = k + 1;
    }
    assert(s@.subrange(at as int, at + pat@.len()) =~= pat@);
    true
}

fn contains_exec(s: &Vec<char>, pat: &[char]) -> (r: bool)
    ensures
        r == contains_seq(s@, pat@),
{
    if pat.len() > s.len() {
        return false;
    }
    if pat.len() == 0 {
        assert(s@.subrange(0, 0) =~= pat@);
        assert(occurs_at(s@, pat@, 0));
        return true;
    }
    let n = s.len();
    let last = n - pat.len();
    let mut at: usize = 0;
    while at <= last
        invariant
            n == s@.len(),
            pat@.len() <= s@.len(),
            last == s@.len() - pat@.len(),
            pat@.len() >= 1,
            at <= last + 1,
            forall|t: int| 0 <= t < at ==> !occurs_at(s@, pat@, t),
        decreases last + 1 - at,
    {
        if occurs_at_exec(s, pat, at) {
            return true;
        }
        at = at + 1;
    }
    false
}

/// True when a file name is any NVRTC shared library, across the versioned
/// names a CUDA runtime may use (`nvrtc.dll`, `nvrtc64_120_0.dll`,
/// `libnvrtc.so.12`, ...).
pub fn is_nvrtc_library_name(name: &str) -> (r: bool)
    ensures
        r == is_nvrtc_spec(name@),
{
    let n = name.unicode_len();
    let mut low: Vec<char> = Vec::new();
    let mut i: usize = 0;
    while i < n
        invariant
            i <= n,
            n == name@.len(),
            low@ == ascii_lower_seq(name@.take(i as int)),
        decreases n - i,
    {
        low.push(lower_char(name.get_char(i)));
        assert(low@ =~= ascii_lower_seq(name@.take(i + 1)));
        i = i + 1;
    }
    assert(name@.take(i as int) =~= name@);
    let nv = ['n', 'v', 'r', 't', 'c'];
    let dll = ['.', 'd', 'l', 'l'];
    let so = ['.', 's', 'o'];
    assert(nv@ =~= nvrtc_pat());
    assert(dll@ =~= dll_pat());
    assert(so@ =~= so_pat());
    if !contains_exec(&low, nv.as_slice()) {
        return false;
    }
    let ends_dll = low.len() >= 4 && occurs_at_exec(&low, dll.as_slice(), low.len() - 4);
    proof {
        if low@.len() >= 4 {
            assert(low@.skip(low@.len() - 4) =~= low@.subrange(low@.len() - 4, low@.len() as int));
        }
    }
    ends_dll || contains_exec(&low, so.as_slice())
}

} // verus!
