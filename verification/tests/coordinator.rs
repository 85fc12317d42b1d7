use recur64::coordinator::{
    collection_result, gather_collection, global_game_id, run_status, run_stop, selfplay_counts, selfplay_game_seed, termination_counts,
    RunPoint, RunStop,
};
use recur64::run_dir::RunStatus;
use recur64::replay::schema::{GameRecord, PlyRecord, SearchRecord};

fn game(id: u64, plies: usize, outcome: Option<u8>, termination: &str) -> GameRecord {
    GameRecord {
        game_id: id,
        start_fen: "startpos".to_string(),
        seed: id,
        search: SearchRecord { simulations: 8, c_puct: 0x3FC0_0000, temperature: 0x3F80_0000, recurrence: 1 },
        plies: (0..plies)
            .map(|i| PlyRecord {
                selected: i as u16,
                target: vec![(i as u16, 0x3F80_0000)],
                visits_total: 8,
                side_to_move: (i % 2) as u8,
            })
            .collect(),
        termination: termination.to_string(),
        outcome,
    }
}

#[test]
fn game_seed_uses_global_game_id_across_cycles() {
    let base_seed = 17u64;
    let games_per_cycle = 24u64;
    let first_cycle: Vec<_> = (0..games_per_cycle)
        .map(|index| selfplay_game_seed(base_seed, index))
        .collect();
    let second_cycle: Vec<_> = (0..games_per_cycle)
        .map(|index| selfplay_game_seed(base_seed, games_per_cycle + index))
        .collect();
    assert!(first_cycle.iter().all(|seed| !second_cycle.contains(seed)));
    assert_eq!(second_cycle[0], 41);
}

#[test]
fn game_seed_wraps_instead_of_overflowing() {
    assert_eq!(selfplay_game_seed(u64::MAX, 2), 1);
    assert_eq!(global_game_id(100, 5), 105);
}

#[test]
fn counts_separate_results_from_truncation() {
    let records = vec![
        game(0, 4, Some(2), "checkmate"),
        game(1, 2, None, "truncated"),
        game(2, 3, Some(1), "stalemate"),
        game(3, 5, Some(0), "checkmate"),
        game(4, 1, None, "aborted"),
    ];
    let c = selfplay_counts(&records);
    assert_eq!(c.games, 5);
    assert_eq!(c.plies, 15);
    assert_eq!(c.white_wins, 1);
    assert_eq!(c.draws, 1);
    assert_eq!(c.black_wins, 1);
    assert_eq!(c.truncated, 2);
    assert_eq!(c.trainable_games, 3);
    assert_eq!(c.trainable_positions, 12);
}

#[test]
fn counts_of_no_games_are_zero() {
    let c = selfplay_counts(&Vec::new());
    assert_eq!(c.games, 0);
    assert_eq!(c.plies, 0);
    assert_eq!(c.trainable_positions, 0);
}

#[test]
fn terminations_are_tallied_by_label() {
    let records = vec![
        game(0, 4, Some(2), "checkmate"),
        game(1, 2, None, "truncated"),
        game(2, 3, Some(1), "threefold_repetition"),
        game(3, 5, Some(1), "threefold_repetition"),
        game(4, 1, None, "resigned"),
    ];
    let t = termination_counts(&records);
    assert_eq!(t.labels, vec!["checkmate", "resigned", "threefold_repetition", "truncated"]);
    assert_eq!(t.counts, vec![1, 1, 2, 1]);
    let none = termination_counts(&Vec::new());
    assert!(none.labels.is_empty() && none.counts.is_empty());
}

#[test]
fn failed_games_fail_the_collection() {
    assert_eq!(collection_result(&vec![]), Ok(()));
    let two = vec!["game 3: boom".to_string(), "game 7: boom".to_string()];
    let f = collection_result(&two).unwrap_err();
    assert_eq!(f.count, 2);
    assert_eq!(f.first, two);
    let six: Vec<String> = (0..6).map(|i| format!("game {i}: boom")).collect();
    let f = collection_result(&six).unwrap_err();
    assert_eq!(f.count, 6);
    assert_eq!(f.first, six[..4].to_vec());
}

#[test]
fn run_status_follows_where_it_stopped() {
    assert_eq!(run_stop(RunPoint::BeforeCollect, true, true), Some(RunStop::CancelledBeforeCollect));
    assert_eq!(run_stop(RunPoint::AfterCollect, true, true), Some(RunStop::CancelledDuringCollect));
    assert_eq!(run_stop(RunPoint::AfterCollect, false, false), None);
    assert_eq!(run_stop(RunPoint::AfterAudit, true, false), Some(RunStop::AuditFailed));
    assert_eq!(run_status(None), RunStatus::Completed);
    assert_eq!(run_status(Some(RunStop::AuditFailed)), RunStatus::Failed);
    assert_eq!(run_status(Some(RunStop::CancelledDuringCollect)), RunStatus::Interrupted);
}

#[test]
fn gathering_returns_every_game_or_the_failures() {
    let ok = gather_collection(vec![
        Some((vec![game(0, 2, Some(1), "stalemate"), game(2, 1, None, "truncated")], vec![])),
        Some((vec![game(1, 3, Some(2), "checkmate")], vec![])),
    ])
    .unwrap();
    assert_eq!(ok.iter().map(|g| g.game_id).collect::<Vec<_>>(), vec![0, 2, 1]);
    assert_eq!(gather_collection(vec![]).unwrap().len(), 0);

    let f = gather_collection(vec![
        Some((vec![game(0, 2, Some(1), "stalemate")], vec!["game 1: boom".to_string()])),
        None,
    ])
    .unwrap_err();
    assert_eq!(f.count, 2);
    assert_eq!(f.first, vec!["game 1: boom".to_string(), "self-play worker panicked".to_string()]);
}
