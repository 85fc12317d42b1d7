use recur64::replay::capacity::plan_capacity;
use recur64::replay::sampler::{target_positions, wdl_class, ReplayStore, SampleError};
use recur64::replay::schema::{GameRecord, Manifest, PlyRecord, ReplayHeader, SearchRecord};
use recur64::replay::writer::ReplayWriter;
use recur64::rng::Rng;
use recur64::rules::Color;

fn header() -> ReplayHeader {
    ReplayHeader::new("t".to_string(), "m".to_string(), "cpu".to_string(), "fp32".to_string())
}

/// A game of `n` plies, each with a one-hot target on its selected action.
fn record(game_id: u64, n: usize, outcome: Option<u8>, term: &str) -> GameRecord {
    GameRecord {
        game_id,
        start_fen: "startpos".to_string(),
        seed: 0,
        search: SearchRecord { simulations: 1, c_puct: 0x3F80_0000, temperature: 0, recurrence: 1 },
        plies: (0..n)
            .map(|i| PlyRecord {
                selected: 10 + i as u16,
                target: vec![(10 + i as u16, 0x3F80_0000)],
                visits_total: 1,
                side_to_move: (i % 2) as u8,
            })
            .collect(),
        termination: term.to_string(),
        outcome,
    }
}

/// Write games through a writer with `per_shard` games per shard and
/// return the manifest and the `(shard, game)` list in replay order.
fn write(games: Vec<GameRecord>, per_shard: usize) -> (Manifest, Vec<(usize, GameRecord)>) {
    let mut w = ReplayWriter::new("store".to_string(), header(), per_shard).unwrap();
    let mut indexed = Vec::new();
    let mut shard = 0usize;
    for g in games {
        if w.push(g) {
            let p = w.take_pending().unwrap();
            for g in &p.shard.games {
                indexed.push((shard, g.clone()));
            }
            w.record_shard(&p.shard.games, 64, 0);
            shard += 1;
        }
    }
    if let Some(p) = w.take_pending() {
        for g in &p.shard.games {
            indexed.push((shard, g.clone()));
        }
        w.record_shard(&p.shard.games, 64, 0);
    }
    (w.manifest(), indexed)
}

#[test]
fn store_excludes_truncated_and_samples_valid() {
    let (_, indexed) = write(
        vec![record(0, 4, Some(2), "checkmate"), record(1, 2, None, "truncated")],
        8,
    );
    let store = ReplayStore::from_games("store".to_string(), indexed.clone());
    assert_eq!(store.total_games(), 2);
    assert_eq!(store.sampleable(), 4, "only the 4 result plies are sampleable");

    let mut rng = Rng::new(1);
    let batch = store.sample_coords(8, &mut rng).unwrap();
    assert_eq!(batch.len(), 8);
    for &(g, p) in &batch {
        let game = &indexed[g].1;
        assert!(game.outcome.is_some());
        assert!(p < game.plies.len());
        assert!(!game.plies[p].target.is_empty());
        let wdl = wdl_class(game.outcome.unwrap(), if game.plies[p].side_to_move == 0 { Color::White } else { Color::Black });
        assert!((0..3).contains(&wdl));
    }
}

#[test]
fn capacity_archives_oldest_shards() {
    let games = (0..3).map(|id| record(id, 4, Some(2), "checkmate")).collect();
    let (manifest, indexed) = write(games, 1);
    assert_eq!(manifest.shards.len(), 3);

    let plan = plan_capacity(&manifest, 4);
    assert_eq!(plan.report.kept_shards, 1);
    assert_eq!(plan.report.archived_shards, 2);
    assert_eq!(plan.report.positions, 4);
    let published = plan.manifest.expect("archiving publishes a new manifest");
    assert_eq!(published.shards.len(), 1);
    assert_eq!(published.shards[0].file, "shard-000002.r64shard");
    assert_eq!(published.games, 1);
    assert_eq!(plan.archived.iter().map(|s| s.file.as_str()).collect::<Vec<_>>(),
        vec!["shard-000000.r64shard", "shard-000001.r64shard"]);

    let kept: Vec<(usize, GameRecord)> = indexed.into_iter().filter(|(s, _)| *s == 2).map(|(_, g)| (0, g)).collect();
    let store = ReplayStore::from_games("store".to_string(), kept);
    assert_eq!(store.sampleable(), 4);
    assert_eq!(store.shard_count(), 1);
}

#[test]
fn capacity_keeps_everything_that_fits() {
    let games = (0..3).map(|id| record(id, 4, Some(1), "stalemate")).collect();
    let (manifest, _) = write(games, 1);
    let plan = plan_capacity(&manifest, 100);
    assert_eq!(plan.report.kept_shards, 3);
    assert_eq!(plan.report.archived_shards, 0);
    assert!(plan.manifest.is_none());
    // The newest shard always stays, even when it alone exceeds the limit.
    let plan = plan_capacity(&manifest, 1);
    assert_eq!(plan.report.kept_shards, 1);
    assert_eq!(plan.report.positions, 4);
}

#[test]
fn empty_store_refuses_to_sample() {
    let store = ReplayStore::from_games("e".to_string(), vec![(0, record(0, 3, None, "truncated"))]);
    assert_eq!(store.sampleable(), 0);
    assert_eq!(store.trainable_games(), 0);
    let mut rng = Rng::new(5);
    assert_eq!(store.sample_coords(4, &mut rng), Err(SampleError::NoSampleablePositions));
}

#[test]
fn sampling_is_reproducible_and_favors_newer_shards() {
    let games = (0..4).map(|id| record(id, 2, Some(0), "checkmate")).collect();
    let (_, indexed) = write(games, 1);
    let store = ReplayStore::from_games("s".to_string(), indexed.clone());
    assert_eq!(store.shard_count(), 4);
    assert_eq!(store.total_positions(), 8);
    let a = store.sample_coords(2000, &mut Rng::new(9)).unwrap();
    let b = store.sample_coords(2000, &mut Rng::new(9)).unwrap();
    assert_eq!(a, b);
    let mut per_shard = [0usize; 4];
    for (g, _) in &a {
        per_shard[indexed[*g].0] += 1;
    }
    assert!(per_shard[3] > per_shard[0], "{per_shard:?}");
}

#[test]
fn wdl_class_is_from_the_side_to_move() {
    assert_eq!(wdl_class(0, Color::White), 0);
    assert_eq!(wdl_class(0, Color::Black), 2);
    assert_eq!(wdl_class(2, Color::Black), 0);
    assert_eq!(wdl_class(2, Color::White), 2);
    assert_eq!(wdl_class(1, Color::White), 1);
}

#[test]
fn targets_align_to_the_legal_list() {
    let legal = vec![40, 7, 300, 7];
    assert_eq!(target_positions(&legal, &vec![(300, 1), (7, 2), (40, 3)]), Ok(vec![2, 1, 0]));
    assert_eq!(target_positions(&legal, &vec![(7, 1), (9, 2), (11, 3)]), Err(9));
    assert_eq!(target_positions(&legal, &vec![]), Ok(vec![]));
}
