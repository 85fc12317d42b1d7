use recur64::config::{ConfigError, RunConfig};
use recur64::sweep::{cell_config, grid, workstation_grid, SweepCellSpec};

#[test]
fn grids_cover_every_pairing() {
    let small = grid(true);
    assert_eq!(small.len(), 6);
    assert_eq!(small[0], SweepCellSpec { active_games: 32, max_batch: 32, batch_timeout_us: 500, simulations: 8 });
    assert_eq!(small[5], SweepCellSpec { active_games: 128, max_batch: 64, batch_timeout_us: 500, simulations: 8 });
    let full = grid(false);
    assert_eq!(full.len(), 16);
    assert_eq!(full[15].active_games, 256);
    assert_eq!(full[15].max_batch, 128);
    let ws = workstation_grid();
    assert_eq!(ws.len(), 6);
    assert_eq!(ws[4], SweepCellSpec { active_games: 64, max_batch: 64, batch_timeout_us: 500, simulations: 16 });
}

#[test]
fn cell_config_applies_the_cell() {
    let base = RunConfig::with_defaults("sweep".to_string());
    let cell = SweepCellSpec { active_games: 64, max_batch: 16, batch_timeout_us: 1000, simulations: 32 };
    let c = cell_config(&base, cell, 500).unwrap();
    assert_eq!(c.games_per_cycle, Some(500));
    assert_eq!(c.concurrent_games, Some(64));
    assert_eq!(c.cpu_workers, 64);
    assert_eq!(c.max_inference_batch, 16);
    assert_eq!(c.batch_timeout_us, 1000);
    assert_eq!(c.simulations_per_move, 32);
    assert_eq!(c.collection_shape().unwrap(), (500, 64));
    assert_eq!(cell_config(&base, cell, 1 << 40).err(), Some(ConfigError::GamesOutOfRange));
}
