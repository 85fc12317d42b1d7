use recur64::config::RunConfig;
use recur64::run_dir::{RunDir, RunMetadata, RunStatus};

fn cfg() -> RunConfig {
    let mut cfg = RunConfig::with_defaults("meta".to_string());
    cfg.seed = 7;
    cfg.hardware_profile = Some("hp-home".to_string());
    cfg.model_profile = Some("f15".to_string());
    cfg
}

#[test]
fn metadata_records_seed_and_profiles() {
    let meta = RunMetadata::new(&cfg(), None, None, "0.1.0".to_string());
    assert_eq!(meta.seed, 7);
    assert_eq!(meta.hardware_profile.as_deref(), Some("hp-home"));
    assert_eq!(meta.model_profile.as_deref(), Some("f15"));
}

#[test]
fn metadata_starts_running_with_build_provenance() {
    let meta = RunMetadata::new(&cfg(), Some("abc123".to_string()), Some("main".to_string()), "0.1.0".to_string());
    assert_eq!(meta.status, RunStatus::Running);
    assert_eq!(meta.run_id, "meta");
    assert_eq!(meta.git_revision.as_deref(), Some("abc123"));
    assert_eq!(meta.git_branch.as_deref(), Some("main"));
    assert_eq!(meta.device, "cpu");
    assert_eq!(meta.precision, "fp32");
    assert!(meta.note.is_none());
}

#[test]
fn run_dir_layout_names_each_area() {
    let d = RunDir { root: "runs/r1".to_string() };
    let sep = std::path::MAIN_SEPARATOR;
    assert_eq!(d.replay(), format!("runs/r1{sep}replay"));
    assert_eq!(d.checkpoints(), format!("runs/r1{sep}checkpoints"));
    assert_eq!(d.eval(), format!("runs/r1{sep}eval"));
    assert_eq!(d.logs(), format!("runs/r1{sep}logs"));
    assert_eq!(d.report(), format!("runs/r1{sep}report"));
    assert_eq!(d.reference_ckpt(), format!("runs/r1{sep}checkpoints{sep}reference"));
    assert_eq!(d.candidate_ckpt(), format!("runs/r1{sep}checkpoints{sep}candidate"));
}

#[test]
fn run_dir_areas_are_distinct_children_of_the_root() {
    for root in ["runs/r1", "r", "/abs/run", r"\\?\C:\runs"] {
        let d = RunDir { root: root.to_string() };
        let paths = [
            d.replay(),
            d.checkpoints(),
            d.eval(),
            d.report(),
            d.logs(),
            d.reference_ckpt(),
            d.candidate_ckpt(),
        ];
        for (i, a) in paths.iter().enumerate() {
            for b in paths.iter().skip(i + 1) {
                assert_ne!(a, b);
            }
        }
        let names = ["replay", "checkpoints", "eval", "report", "logs", "reference", "candidate"];
        for (p, n) in paths.iter().zip(names.iter()) {
            assert!(p.ends_with(n));
        }
    }
    let d = RunDir { root: "runs".to_string() };
    let replay = d.replay();
    assert!(replay.starts_with("runs") && replay.len() == "runs".len() + 1 + "replay".len());
    let sep = replay.as_bytes()["runs".len()];
    assert!(sep == b'/' || sep == b'\\');
    assert_eq!(d.reference_ckpt(), format!("{}{}reference", d.checkpoints(), sep as char));
}
