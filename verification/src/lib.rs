//! Recur64: the verified core of the self-play / replay / learning loop.

pub mod rng;
pub mod text;
pub mod rules;
pub mod hashing;
pub mod replay;
pub mod config;
pub mod sweep;
pub mod cancel;
pub mod evaluator;
pub mod run_dir;
pub mod coordinator;
pub mod pilot;
pub mod learner;
pub mod gpu_telemetry;
pub mod puct;
pub mod identity;
pub mod selfplay;
pub mod batcher;
