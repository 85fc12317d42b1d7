use recur64::config::{RunConfig, SnapshotPolicy};
use recur64::pilot::{
    check_reference_identity, ReferenceMismatch,
    arena_informative_for_promotion, collection_gate, cycle_gate, cycle_seed, final_run_status,
    pilot_schedule, reuse_shortfall, snapshot_decision, cycle_healthy, ArenaTally, PilotLedger, PilotStatus,
    hold_reasons, HoldReason, ReuseShortfall, SnapshotDecision, LineageIds, PilotLineage, CycleStart,
};
use recur64::run_dir::RunStatus;

#[test]
fn draw_only_and_all_truncated_arenas_are_uninformative() {
    let mut arena = ArenaTally { games: 4, candidate_wins: 0, reference_wins: 0, draws: 4, truncated: 0 };
    assert!(!arena_informative_for_promotion(&arena));
    arena.draws = 0;
    arena.truncated = 4;
    assert!(!arena_informative_for_promotion(&arena));
    arena.truncated = 0;
    arena.candidate_wins = 1;
    assert!(arena_informative_for_promotion(&arena));
}

#[test]
fn cycle_gate_checks_cancel_then_deadline_then_positions() {
    assert_eq!(cycle_gate(true, true, Some(0), 10), Some(PilotStatus::Interrupted));
    assert_eq!(cycle_gate(false, true, Some(0), 10), Some(PilotStatus::BudgetExhausted));
    assert_eq!(cycle_gate(false, false, Some(10), 10), Some(PilotStatus::PositionBudgetExhausted));
    assert_eq!(cycle_gate(false, false, Some(11), 10), None);
    assert_eq!(cycle_gate(false, false, None, 10), None);
}

#[test]
fn short_collection_exhausts_the_budget() {
    assert_eq!(collection_gate(3, 4), Some(PilotStatus::BudgetExhaustedDuringCollect));
    assert_eq!(collection_gate(4, 4), None);
    assert_eq!(final_run_status(PilotStatus::Completed), RunStatus::Completed);
    assert_eq!(final_run_status(PilotStatus::PositionBudgetExhausted), RunStatus::Interrupted);
}

#[test]
fn status_labels_are_stable() {
    assert_eq!(PilotStatus::Completed.label(), "completed");
    assert_eq!(PilotStatus::Interrupted.label(), "interrupted");
    assert_eq!(PilotStatus::BudgetExhausted.label(), "budget_exhausted");
    assert_eq!(PilotStatus::PositionBudgetExhausted.label(), "position_budget_exhausted");
    assert_eq!(PilotStatus::BudgetExhaustedDuringCollect.label(), "budget_exhausted_during_collect");
}

#[test]
fn frozen_reference_never_promotes() {
    let decisive = ArenaTally { games: 8, candidate_wins: 6, reference_wins: 1, draws: 1, truncated: 0 };
    for healthy in [false, true] {
        for above_half in [false, true] {
            for floor in [false, true] {
                assert_eq!(
                    snapshot_decision(SnapshotPolicy::FrozenReference, healthy, &decisive, 4, above_half, floor),
                    SnapshotDecision::Hold
                );
                assert_eq!(
                    hold_reasons(SnapshotPolicy::FrozenReference, healthy, &decisive, 4, above_half, floor),
                    vec![HoldReason::FrozenReference]
                );
            }
        }
    }
}

#[test]
fn promotion_needs_enough_decisive_games_and_a_winning_score() {
    let strong = ArenaTally { games: 8, candidate_wins: 5, reference_wins: 1, draws: 2, truncated: 0 };
    assert_eq!(snapshot_decision(SnapshotPolicy::Conservative, true, &strong, 4, true, true), SnapshotDecision::Promote);
    assert!(hold_reasons(SnapshotPolicy::Conservative, true, &strong, 4, true, true).is_empty());
    let one_decisive = ArenaTally { games: 4, candidate_wins: 1, reference_wins: 0, draws: 3, truncated: 0 };
    assert_eq!(snapshot_decision(SnapshotPolicy::Conservative, true, &one_decisive, 4, true, true), SnapshotDecision::Hold);
    assert_eq!(
        hold_reasons(SnapshotPolicy::Conservative, true, &one_decisive, 4, true, true),
        vec![HoldReason::TooFewDecisive]
    );
    assert_eq!(
        hold_reasons(SnapshotPolicy::Conservative, false, &strong, 4, false, false),
        vec![HoldReason::Unhealthy, HoldReason::ScoreNotAboveHalf, HoldReason::ScoreBelowFloor]
    );
    let draws = ArenaTally { games: 4, candidate_wins: 0, reference_wins: 0, draws: 4, truncated: 0 };
    assert_eq!(
        hold_reasons(SnapshotPolicy::Conservative, true, &draws, 0, true, true),
        vec![HoldReason::Uninformative]
    );
    assert_eq!(SnapshotDecision::Promote.label(), "promote");
    assert_eq!(SnapshotDecision::Hold.label(), "hold");
}

#[test]
fn ledger_follows_only_promoted_snapshots() {
    let mut ledger = PilotLedger::new();
    ledger.record_collection(24, 1000);
    ledger.apply_decision(SnapshotDecision::Promote, 0, 10);
    assert_eq!(ledger.cumulative_updates, 10);
    assert!(ledger.trajectory_matches(10, 10));
    assert!(!ledger.trajectory_matches(10, 9));
    ledger.record_collection(24, 900);
    ledger.apply_decision(SnapshotDecision::Hold, 10, 10);
    assert_eq!(ledger.cumulative_updates, 10);
    assert_eq!(ledger.total_games_collected, 48);
    assert_eq!(ledger.total_positions, 1900);
}

#[test]
fn pilot_schedule_spans_all_cycles() {
    let mut cfg = RunConfig::with_defaults("p".to_string());
    cfg.max_updates = 200;
    cfg.cycles = 4;
    assert_eq!(pilot_schedule(&cfg), (80, 800));
    cfg.planned_updates = Some(100);
    assert_eq!(pilot_schedule(&cfg), (80, 800));
    cfg.planned_updates = Some(5000);
    cfg.warmup_updates = Some(3);
    assert_eq!(pilot_schedule(&cfg), (3, 5000));
    assert_eq!(cycle_seed(u64::MAX, 1), 0);
    assert_eq!(cycle_seed(7, 3), 10);
}

#[test]
fn health_needs_every_gate() {
    assert!(cycle_healthy(true, 0, true, Some(3), true));
    assert!(!cycle_healthy(false, 0, true, Some(3), true));
    assert!(!cycle_healthy(true, 1, true, Some(3), true));
    assert!(!cycle_healthy(true, 0, false, Some(3), true));
    assert!(!cycle_healthy(true, 0, true, Some(0), true));
    assert!(!cycle_healthy(true, 0, true, Some(3), false));
    assert!(!cycle_healthy(true, 0, true, None, true));
}

#[test]
fn shortfall_reasons_come_in_order() {
    assert_eq!(reuse_shortfall(130, 100, Some(50), true), Some(ReuseShortfall::SafetyCap));
    assert_eq!(reuse_shortfall(65, 65, Some(40), true), Some(ReuseShortfall::DeadlineOrExhaustion));
    assert_eq!(reuse_shortfall(65, 65, Some(65), true), Some(ReuseShortfall::RoundingOrScarcity));
    assert_eq!(reuse_shortfall(65, 65, None, false), None);
    assert_eq!(ReuseShortfall::SafetyCap.reason(), "max_updates safety cap");
    assert_eq!(ReuseShortfall::DeadlineOrExhaustion.reason(), "run deadline or replay exhaustion");
}

#[test]
fn a_wrong_reference_id_refuses_to_start() {
    let loaded = "model-abc".to_string();
    assert_eq!(check_reference_identity(&None, &loaded), Ok(()));
    assert_eq!(check_reference_identity(&Some("model-abc".to_string()), &loaded), Ok(()));
    assert_eq!(
        check_reference_identity(&Some("not-the-reference".to_string()), &loaded),
        Err(ReferenceMismatch { expected: "not-the-reference".to_string(), loaded })
    );
}

#[test]
fn lineage_chains_each_cycle_to_the_promoted_snapshot() {
    let mut lineage = PilotLineage::new("ref".to_string());
    assert_eq!(lineage.parent_model_id(), "ref");

    let first = lineage.close_cycle("cand-1".to_string(), SnapshotDecision::Hold, 5);
    assert_eq!(
        first,
        LineageIds {
            parent_model_id: "ref".to_string(),
            candidate_model_id: "cand-1".to_string(),
            promoted_model_id: "ref".to_string(),
            replay_model_ids: vec!["ref".to_string()],
            optimizer_step_start: 0,
            optimizer_step_end: 5,
            decision: SnapshotDecision::Hold,
        }
    );
    assert_eq!(lineage.parent_model_id(), "ref");

    let second = lineage.close_cycle("cand-2".to_string(), SnapshotDecision::Promote, 7);
    assert_eq!(second.parent_model_id, "ref");
    assert_eq!(second.replay_model_ids, vec!["ref".to_string()]);
    assert_eq!(second.optimizer_step_start, 0);
    assert_eq!(second.optimizer_step_end, 7);
    assert_eq!(second.promoted_model_id, "cand-2");
    assert_eq!(lineage.parent_model_id(), "cand-2");

    let third = lineage.close_cycle("cand-3".to_string(), SnapshotDecision::Hold, 3);
    assert_eq!(third.parent_model_id, "cand-2");
    assert_eq!(third.replay_model_ids, vec!["cand-2".to_string()]);
    assert_eq!(third.optimizer_step_start, 7);
    assert_eq!(third.optimizer_step_end, 10);
    assert_eq!(third.promoted_model_id, "cand-2");
}

#[test]
fn cycles_start_from_the_ledger_and_stop_in_check_order() {
    let mut l = PilotLedger::new();
    assert_eq!(l.begin_cycle(false, false, Some(100)), CycleStart::Run { game_id_base: 0, optimizer_step_start: 0 });
    assert_eq!(l.close_collection(8, 8, 60), None);
    l.apply_decision(SnapshotDecision::Promote, 0, 5);
    assert_eq!(l.begin_cycle(false, false, Some(100)), CycleStart::Run { game_id_base: 8, optimizer_step_start: 5 });
    assert_eq!(l.close_collection(3, 8, 30), Some(PilotStatus::BudgetExhaustedDuringCollect));
    assert_eq!(l.total_games_collected, 16);
    assert_eq!(l.total_positions, 60);
    assert_eq!(l.begin_cycle(true, true, Some(0)), CycleStart::Stop(PilotStatus::Interrupted));
    assert_eq!(l.begin_cycle(false, true, Some(0)), CycleStart::Stop(PilotStatus::BudgetExhausted));
    assert_eq!(l.begin_cycle(false, false, Some(60)), CycleStart::Stop(PilotStatus::PositionBudgetExhausted));
}
