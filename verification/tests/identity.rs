use recur64::config::{RunConfig, SnapshotPolicy};
use recur64::identity::IDENTITY_VERSION;
use recur64::sweep::{cell_config, SweepCellSpec};

fn base() -> RunConfig {
    let mut cfg = RunConfig::with_defaults("t".to_string());
    cfg.games_per_cycle = Some(64);
    cfg.concurrent_games = Some(12);
    cfg.cpu_workers = 12;
    cfg
}

#[test]
fn collection_counts_and_scientific_hash_are_independent_of_scheduling() {
    let mut cfg = base();
    assert_eq!(cfg.collection_shape().unwrap(), (64, 12));
    let scientific = cfg.scientific_identity(None).unwrap();
    cfg.concurrent_games = Some(8);
    cfg.cpu_workers = 8;
    cfg.max_inference_batch = 64;
    cfg.batch_timeout_us = 2000;
    cfg.device = "cuda".into();
    cfg.hardware_profile = Some("other-machine".into());
    cfg.run_budget_minutes = 90;
    cfg.position_budget = Some(1234);
    cfg.run_id = "renamed".into();
    assert_eq!(cfg.scientific_identity(None).unwrap(), scientific);
    cfg.concurrent_games = None;
    assert!(cfg.collection_shape().is_err());
}

#[test]
fn identity_tracks_search_training_promotion_and_suite() {
    let reference = base().scientific_identity(None).unwrap();
    assert_eq!(reference.identity_version, IDENTITY_VERSION);
    assert_eq!(reference.games_per_cycle, 64);
    assert_eq!(reference.effective_batch, 128);
    let changes: Vec<(&str, Box<dyn Fn(&mut RunConfig)>)> = vec![
        ("sims", Box::new(|c| c.simulations_per_move = 16 + 1)),
        ("c_puct", Box::new(|c| c.c_puct = 0x4000_0000)),
        ("ply_cap", Box::new(|c| c.ply_cap = 200)),
        ("effective_batch", Box::new(|c| c.accumulation_steps = 8)),
        ("planned", Box::new(|c| c.planned_updates = Some(300))),
        ("reuse", Box::new(|c| c.replay_reuse_target = 0x4008_0000_0000_0000)),
        ("games_per_cycle", Box::new(|c| c.games_per_cycle = Some(24))),
        ("shard_max_games", Box::new(|c| c.shard_max_games = 64)),
        ("min_decisive", Box::new(|c| c.promotion_min_decisive_games = 12)),
        ("snapshot", Box::new(|c| c.snapshot_policy = SnapshotPolicy::FrozenReference)),
        ("reference", Box::new(|c| c.reference_model_id = Some("abc".into()))),
    ];
    for (name, change) in changes {
        let mut cfg = base();
        change(&mut cfg);
        assert_ne!(cfg.scientific_identity(None).unwrap(), reference, "{name} must change identity");
    }
    let with_suite = base().scientific_identity(Some("suite-digest".to_string())).unwrap();
    assert_ne!(with_suite, reference);
}

#[test]
fn identity_refuses_an_invalid_collection() {
    let mut cfg = base();
    cfg.concurrent_games = None;
    assert!(cfg.scientific_identity(None).is_err());
}

#[test]
fn cell_identity_names_effective_overrides() {
    let base = RunConfig::with_defaults("smoke".to_string());
    let schedule_a = SweepCellSpec { active_games: 8, max_batch: 8, batch_timeout_us: 500, simulations: 16 };
    let schedule_b = SweepCellSpec { active_games: 16, max_batch: 16, batch_timeout_us: 1000, simulations: 16 };
    let search_b = SweepCellSpec { simulations: 32, ..schedule_b };
    let a = cell_config(&base, schedule_a, 16).expect("resolve cell a");
    let b = cell_config(&base, schedule_b, 16).expect("resolve cell b");
    let search = cell_config(&base, search_b, 16).expect("resolve search cell");
    assert_eq!(
        a.scientific_identity(None).unwrap(),
        b.scientific_identity(None).unwrap(),
        "hardware scheduling must not change scientific identity"
    );
    assert_ne!(a, b);
    assert_ne!(
        b.scientific_identity(None).unwrap(),
        search.scientific_identity(None).unwrap(),
        "search budget must change scientific identity"
    );
}
