//! Batching-sweep cells: the grids of (active games, batch cap, batch
//! timeout, simulations) a throughput sweep measures, and the configuration a
//! cell runs under.

use vstd::prelude::*;

use crate::config::{ConfigError, RunConfig};

verus! {

/// One sweep cell.
#[derive(Debug, Clone, Copy, PartialEq, Eq, Structural)]
pub struct SweepCellSpec {
    pub active_games: u32,
    pub max_batch: usize,
    pub batch_timeout_us: u64,
    pub simulations: u32,
}

/// The cells of the default grids, outer loop over active games, inner over
/// the batch cap.
pub open spec fn grid_spec(small: bool) -> Seq<SweepCellSpec> {
    if small {
        let actives = seq![32u32, 64, 128];
        let batches = seq![32usize, 64];
        Seq::new(6, |i: int| SweepCellSpec {
            active_games: actives[i / 2],
            max_batch: batches[i % 2],
            batch_timeout_us: 500,
            simulations: 8,
        })
    } else {
        let actives = seq![32u32, 64, 128, 256];
        let batches = seq![16usize, 32, 64, 128];
        Seq::new(16, |i: int| SweepCellSpec {
            active_games: actives[i / 4],
            max_batch: batches[i % 4],
            batch_timeout_us: 500,
            simulations: 16,
        })
    }
}

/// The default grids. `full` is still bounded.
pub fn grid(small: bool) -> (r: Vec<SweepCellSpec>)
    ensures
        r@ == grid_spec(small),
{
    let mut out: Vec<SweepCellSpec> = Vec::new();
    if small {
        let actives: [u32; 3] = [32, 64, 128];
        let batches: [usize; 2] = [32, 64];
        let ghost want = grid_spec(true);
        let mut a: usize = 0;
        while a < 3
            invariant
                a <= 3,
                actives@ == seq![32u32, 64, 128],
                batches@ == seq![32usize, 64],
                want == grid_spec(true),
                out@ == want.take((a * 2) as int),
            decreases 3 - a,
        {
            let mut b: usize = 0;
            while b < 2
                invariant
                    a < 3,
                    b <= 2,
                    actives@ == seq![32u32, 64, 128],
                    batches@ == seq![32usize, 64],
                    want == grid_spec(true),
                    out@ == want.take((a * 2 + b) as int),
                decreases 2 - b,
            {
                out.push(SweepCellSpec {
                    active_games: actives[a],
                    max_batch: batches[b],
                    batch_timeout_us: 500,
                    simulations: 8,
                });
                assert(out@ =~= want.take((a * 2 + b + 1) as int));
                b = b + 1;
            }
            a = a + 1;
        }
        assert(out@ =~= want);
    } else {
        let actives: [u32; 4] = [32, 64, 128, 256];
        let batches: [usize; 4] = [16, 32, 64, 128];
        let ghost want = grid_spec(false);
        let mut a: usize = 0;
        while a < 4
            invariant
                a <= 4,
                actives@ == seq![32u32, 64, 128, 256],
                batches@ == seq![16usize, 32, 64, 128],
                want == grid_spec(false),
                out@ == want.take((a * 4) as int),
            decreases 4 - a,
        {
            let mut b: usize = 0;
            while b < 4
                invariant
                    a < 4,
                    b <= 4,
                    actives@ == seq![32u32, 64, 128, 256],
                    batches@ == seq![16usize, 32, 64, 128],
                    want == grid_spec(false),
                    out@ == want.take((a * 4 + b) as int),
                decreases 4 - b,
            {
                out.push(SweepCellSpec {
                    active_games: actives[a],
                    max_batch: batches[b],
                    batch_timeout_us: 500,
                    simulations: 16,
                });
                assert(out@ =~= want.take((a * 4 + b + 1) as int));
                b = b + 1;
            }
            a = a + 1;
        }
        assert(out@ =~= want);
    }
    out
}

/// The workstation's coarse schedule candidates: concurrency varied with a
/// non-binding batch cap equal to it.
pub open spec fn workstation_grid_spec() -> Seq<SweepCellSpec> {
    let levels = seq![16u32, 24, 32, 48, 64, 96];
    Seq::new(6, |i: int| SweepCellSpec {
        active_games: levels[i],
        max_batch: levels[i] as usize,
        batch_timeout_us: 500,
        simulations: 16,
    })
}

/// Main workstation coarse schedule candidates.
pub fn workstation_grid() -> (r: Vec<SweepCellSpec>)
    ensures
        r@ == workstation_grid_spec(),
{
    let levels: [u32; 6] = [16, 24, 32, 48, 64, 96];
    let ghost want = workstation_grid_spec();
    let mut out: Vec<SweepCellSpec> = Vec::new();
    let mut i: usize = 0;
    while i < 6
        invariant
            i <= 6,
            levels@ == seq![16u32, 24, 32, 48, 64, 96],
            want == workstation_grid_spec(),
            out@ == want.take(i as int),
        decreases 6 - i,
    {
        out.push(SweepCellSpec {
            active_games: levels[i],
            max_batch: levels[i] as usize,
            batch_timeout_us: 500,
            simulations: 16,
        });
        assert(out@ =~= want.take(i + 1));
        i = i + 1;
    }
    assert(out@ =~= want);
    out
}

/// The configuration one sweep cell runs under: `cfg` with the cell's
/// concurrency (also its worker count), batch cap, timeout and search budget,
/// collecting `games` games.
pub open spec fn cell_config_spec(cfg: RunConfig, cell: SweepCellSpec, games: u64) -> RunConfig {
    RunConfig {
        games_per_cycle: Some(games as u32),
        concurrent_games: Some(cell.active_games),
        cpu_workers: cell.active_games as usize,
        max_inference_batch: cell.max_batch,
        batch_timeout_us: cell.batch_timeout_us,
        simulations_per_move: cell.simulations,
        ..cfg
    }
}

/// The configuration of one sweep cell; a game count beyond 32 bits is
/// refused.
pub fn cell_config(cfg: &RunConfig, cell: SweepCellSpec, games: u64) -> (r: Result<RunConfig, ConfigError>)
    ensures
        games > u32::MAX ==> r == Err::<RunConfig, ConfigError>(ConfigError::GamesOutOfRange),
        games <= u32::MAX ==> r == Ok::<RunConfig, ConfigError>(cell_config_spec(*cfg, cell, games)),
{
    if games > u32::MAX as u64 {
        return Err(ConfigError::GamesOutOfRange);
    }
    let mut c = cfg.clone();
    c.games_per_cycle = Some(games as u32);
    c.concurrent_games = Some(cell.active_games);
    c.cpu_workers = cell.active_games as usize;
    c.max_inference_batch = cell.max_batch;
    c.batch_timeout_us = cell.batch_timeout_us;
    c.simulations_per_move = cell.simulations;
    Ok(c)
}

} // verus!
