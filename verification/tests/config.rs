use recur64::config::{
    default_accumulation_steps, default_active_games, default_device, default_precision,
    is_nvrtc_library_name, ConfigError, DeviceKind, Precision, RunConfig, SnapshotPolicy,
};

fn base_config() -> RunConfig {
    let mut cfg = RunConfig::with_defaults("t".to_string());
    cfg.device = "cpu".to_string();
    cfg.precision = "fp32".to_string();
    cfg
}

fn f10_config() -> RunConfig {
    let mut cfg = RunConfig::with_defaults("t".to_string());
    cfg.device = "cuda".to_string();
    cfg.recurrence = 1;
    cfg.simulations_per_move = 64;
    cfg.cycles = 4;
    cfg.replay_max_positions = 100_000;
    cfg.train_batch = 64;
    cfg.accumulation_steps = 4;
    cfg.max_updates = 200;
    cfg.arena_games = 50;
    cfg.snapshot_policy = SnapshotPolicy::Conservative;
    cfg
}

#[test]
fn parses_phase3_fields_and_defaults() {
    let cfg = f10_config();
    assert_eq!(cfg.cycles, 4);
    assert_eq!(cfg.replay_max_positions, 100_000);
    assert_eq!(cfg.effective_batch(), 256);
    assert_eq!(cfg.snapshot_policy, SnapshotPolicy::Conservative);
    assert_eq!(cfg.precision, "fp32");
    assert!(cfg.start_fen.is_none());
    assert!(cfg.argmax_after_ply.is_none());
    assert_eq!(cfg.resolved_planned_updates(), 800);
    assert_eq!(cfg.resolved_warmup(), 80);
}

#[test]
fn warmup_scaling_is_bounded() {
    let mut cfg = f10_config();
    cfg.max_updates = 100_000;
    assert_eq!(cfg.resolved_warmup(), 1000);
    cfg.max_updates = 10;
    assert_eq!(cfg.resolved_warmup(), 10);
}

#[test]
fn device_and_precision_parse() {
    let mut cfg = base_config();
    assert_eq!(cfg.device_kind().unwrap(), DeviceKind::Cpu);
    assert_eq!(cfg.precision_kind().unwrap(), Precision::Fp32);
    cfg.device = "cuda".into();
    assert_eq!(cfg.device_kind().unwrap(), DeviceKind::Cuda);
    cfg.device = "bogus".into();
    assert!(cfg.device_kind().is_err());
}

#[test]
fn unknown_labels_name_the_offending_value() {
    let mut cfg = base_config();
    cfg.device = "tpu".into();
    assert_eq!(cfg.device_kind(), Err(ConfigError::UnknownDevice("tpu".to_string())));
    cfg.precision = "int8".into();
    assert_eq!(cfg.precision_kind(), Err(ConfigError::UnknownPrecision("int8".to_string())));
    cfg.precision = "bf16".into();
    assert_eq!(cfg.precision_kind(), Ok(Precision::Bf16));
    cfg.precision = "fp16".into();
    assert_eq!(cfg.precision_kind(), Ok(Precision::Fp16));
}

#[test]
fn schedule_override_fields_round_trip() {
    let cfg = base_config();
    assert_eq!(cfg.active_games, 32);
    assert_eq!(cfg.cpu_workers, 8);
    assert_eq!(cfg.max_inference_batch, 32);
    assert_eq!(cfg.batch_timeout_us, 500);
}

#[test]
fn legacy_collection_shape_preserves_d24_and_new_pair_is_capped() {
    let mut cfg = base_config();
    cfg.active_games = 64;
    cfg.cpu_workers = 8;
    assert_eq!(
        cfg.collection_shape().unwrap(),
        (64, 64),
        "legacy configs must not be silently shrunk to cpu_workers"
    );
    cfg.games_per_cycle = Some(64);
    cfg.concurrent_games = Some(64);
    assert_eq!(
        cfg.collection_shape().unwrap(),
        (64, 8),
        "explicit concurrency is capped by cpu_workers"
    );
}

#[test]
fn collection_shape_refuses_unpaired_and_empty_collections() {
    let mut cfg = base_config();
    cfg.games_per_cycle = Some(64);
    assert_eq!(cfg.collection_shape(), Err(ConfigError::UnpairedCollection));
    cfg.games_per_cycle = None;
    cfg.concurrent_games = Some(4);
    assert_eq!(cfg.collection_shape(), Err(ConfigError::UnpairedCollection));
    cfg.concurrent_games = None;
    cfg.active_games = 0;
    assert_eq!(cfg.collection_shape(), Err(ConfigError::NonPositiveCollection));
    cfg.active_games = 4;
    cfg.cpu_workers = 0;
    assert_eq!(cfg.collection_shape(), Err(ConfigError::NonPositiveCollection));
}

#[test]
fn concurrency_is_capped_by_the_game_count() {
    let mut cfg = base_config();
    cfg.games_per_cycle = Some(64);
    cfg.concurrent_games = Some(12);
    cfg.cpu_workers = 12;
    assert_eq!(cfg.collection_shape().unwrap(), (64, 12));
    cfg.games_per_cycle = Some(3);
    assert_eq!(cfg.collection_shape().unwrap(), (3, 3));
}

#[test]
fn explicit_schedule_is_used_as_is() {
    let mut cfg = base_config();
    cfg.planned_updates = Some(0);
    cfg.warmup_updates = Some(7);
    assert_eq!(cfg.lr_schedule(), (7, 1));
    cfg.planned_updates = Some(50_000);
    cfg.warmup_updates = None;
    assert_eq!(cfg.lr_schedule(), (1000, 50_000));
    cfg.planned_updates = Some(3_000);
    assert_eq!(cfg.lr_schedule(), (300, 3_000));
}

#[test]
fn effective_batch_floors_each_factor_at_one() {
    let mut cfg = base_config();
    cfg.train_batch = 0;
    cfg.accumulation_steps = 0;
    assert_eq!(cfg.effective_batch(), 1);
    cfg.train_batch = 32;
    assert_eq!(cfg.effective_batch(), 32);
}

#[test]
fn defaults_match_an_empty_config() {
    assert_eq!(default_precision(), "fp32");
    assert_eq!(default_device(), "cpu");
    assert_eq!(default_active_games(), 32);
    assert_eq!(default_accumulation_steps(), 4);
    let cfg = base_config();
    assert_eq!(cfg.seed, 1);
    assert_eq!(cfg.ply_cap, 256);
    assert_eq!(cfg.simulations_per_move, 16);
}

#[test]
fn nvrtc_library_names_are_recognized_across_versions() {
    assert!(is_nvrtc_library_name("nvrtc.dll"));
    assert!(is_nvrtc_library_name("nvrtc64.dll"));
    assert!(is_nvrtc_library_name("nvrtc64_12.dll"));
    assert!(is_nvrtc_library_name("nvrtc64_120_0.dll"));
    assert!(is_nvrtc_library_name("libnvrtc.so.12"));
    assert!(is_nvrtc_library_name("libnvrtc.so"));
    assert!(!is_nvrtc_library_name("cudart64_12.dll"));
    assert!(!is_nvrtc_library_name("cublas64_12.dll"));
    assert!(!is_nvrtc_library_name("nvJitLink_120_0.dll"));
}

#[test]
fn nvrtc_name_match_ignores_case() {
    assert!(is_nvrtc_library_name("NVRTC64_120_0.DLL"));
    assert!(!is_nvrtc_library_name("nvrtc"));
}
