use recur64::replay::schema::{GameRecord, PlayedGame, PlayedPly, SearchRecord};
use recur64::rules::{termination_from_label, Color, Outcome, Termination};

const ALL: [Termination; 7] = [
    Termination::Checkmate,
    Termination::Stalemate,
    Termination::InsufficientMaterial,
    Termination::ThreefoldRepetition,
    Termination::FiftyMoveRule,
    Termination::Truncated,
    Termination::Aborted,
];

#[test]
fn labels_read_back() {
    for t in ALL {
        assert_eq!(termination_from_label(t.label()), Some(t));
    }
    assert_eq!(Termination::ThreefoldRepetition.label(), "threefold_repetition");
    assert_eq!(termination_from_label("Checkmate"), None);
}

#[test]
fn truncation_is_not_a_result() {
    assert!(!Termination::Truncated.is_result());
    assert!(!Termination::Aborted.is_result());
    assert!(!Termination::Truncated.is_draw());
    assert_eq!(Termination::Truncated.outcome(Color::White), None);
    assert_eq!(GameRecord::encode_outcome(Termination::Truncated.outcome(Color::Black)), None);
}

#[test]
fn mated_side_loses_and_draws_are_draws() {
    assert_eq!(Termination::Checkmate.outcome(Color::White), Some(Outcome::Win(Color::Black)));
    assert_eq!(GameRecord::encode_outcome(Termination::Checkmate.outcome(Color::White)), Some(2));
    assert_eq!(GameRecord::encode_outcome(Termination::Checkmate.outcome(Color::Black)), Some(0));
    for t in [Termination::Stalemate, Termination::InsufficientMaterial, Termination::ThreefoldRepetition, Termination::FiftyMoveRule] {
        assert!(t.is_draw());
        assert_eq!(GameRecord::encode_outcome(t.outcome(Color::White)), Some(1));
    }
}

#[test]
fn truncation_is_not_a_draw() {
    let search = SearchRecord { simulations: 16, c_puct: 0x3F80_0000, temperature: 0x3F80_0000, recurrence: 1 };
    let game = PlayedGame {
        start_fen: "startpos".to_string(),
        plies: vec![
            PlayedPly { selected: 70_000, target: vec![(70_000, 0x3F80_0000)], visits_total: 16, side_to_move: Color::White },
            PlayedPly { selected: 12, target: vec![(12, 0x3F00_0000), (13, 0x3F00_0000)], visits_total: 16, side_to_move: Color::Black },
        ],
        termination: Termination::Truncated,
        outcome: Termination::Truncated.outcome(Color::White),
        seed: 99,
    };
    let r = GameRecord::from_selfplay(5, &game, search);
    assert_eq!(r.game_id, 5);
    assert_eq!(r.seed, 99);
    assert_eq!(r.termination, "truncated");
    assert_eq!(r.outcome, None, "truncated games must not have an outcome");
    assert_eq!(r.plies.len(), 2);
    assert_eq!(r.plies[0].selected, (70_000u32 & 0xFFFF) as u16);
    assert_eq!(r.plies[1].target, vec![(12, 0x3F00_0000), (13, 0x3F00_0000)]);
    assert_eq!(r.plies[0].side_to_move, 0);
    assert_eq!(r.plies[1].side_to_move, 1);

    let mate = PlayedGame { termination: Termination::Checkmate, outcome: Termination::Checkmate.outcome(Color::Black), ..game };
    let r = GameRecord::from_selfplay(6, &mate, search);
    assert_eq!(r.termination, "checkmate");
    assert_eq!(r.outcome, Some(0));
}
