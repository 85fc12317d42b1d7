use recur64::rules::{Color, Outcome, Termination};
use recur64::selfplay::{game_outcome, game_stop, SelfPlayConfig};

#[test]
fn argmax_after_ply_switches_temperature_to_zero() {
    let cfg = SelfPlayConfig { temperature: 1.0f32.to_bits(), argmax_after_ply: Some(30), ..SelfPlayConfig::default() };
    assert_eq!(f32::from_bits(cfg.temperature_at(0)), 1.0);
    assert_eq!(f32::from_bits(cfg.temperature_at(29)), 1.0);
    assert_eq!(f32::from_bits(cfg.temperature_at(30)), 0.0);
    assert_eq!(f32::from_bits(cfg.temperature_at(200)), 0.0);
    let always = SelfPlayConfig::default();
    assert_eq!(always.temperature_at(500), always.temperature);
}

#[test]
fn default_settings_match_the_baseline() {
    let c = SelfPlayConfig::default();
    assert_eq!(c.simulations_per_move, 16);
    assert_eq!(f32::from_bits(c.c_puct), 1.0);
    assert_eq!(c.ply_cap, 256);
    assert_eq!(f32::from_bits(c.root_dirichlet_alpha), 0.3);
    assert_eq!(f32::from_bits(c.root_dirichlet_epsilon), 0.0);
}

#[test]
fn the_cap_truncates_and_the_rules_end_games() {
    assert_eq!(game_stop(None, 10, 256), None);
    assert_eq!(game_stop(None, 256, 256), Some(Termination::Truncated));
    assert_eq!(game_stop(Some(Termination::Checkmate), 300, 256), Some(Termination::Checkmate));
    assert_eq!(game_outcome(Termination::Truncated, Color::White), None);
    assert_eq!(game_outcome(Termination::Checkmate, Color::White), Some(Outcome::Win(Color::Black)));
    assert_eq!(game_outcome(Termination::FiftyMoveRule, Color::Black), Some(Outcome::Draw));
}
