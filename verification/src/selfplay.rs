//! Self-play game settings and the decisions of the game loop that do not
//! depend on the search's floating-point scores: when a game stops and how
//! it ended, and the move-selection temperature at each ply. Float settings
//! are held as their IEEE-754 bit patterns.

use vstd::prelude::*;

use crate::rules::{is_result_spec, outcome_spec, Color, Outcome, Termination};

verus! {

/// Game-play configuration.
#[derive(Debug, Clone, Copy, PartialEq, Eq, Structural)]
pub struct SelfPlayConfig {
    pub simulations_per_move: u32,
    /// PUCT exploration constant (`f32` bits).
    pub c_puct: u32,
    /// Move-selection temperature (`f32` bits); zero means argmax over visits.
    pub temperature: u32,
    pub ply_cap: u32,
    pub recurrence: usize,
    /// Play the highest-visit move (temperature zero) from this ply on,
    /// counted from the game's start position. `None` samples at
    /// `temperature` on every ply.
    pub argmax_after_ply: Option<u32>,
    /// Root Dirichlet noise concentration (`f32` bits); used only when the
    /// mixing weight is positive.
    pub root_dirichlet_alpha: u32,
    /// Root noise mixing weight (`f32` bits); zero disables root noise.
    pub root_dirichlet_epsilon: u32,
}

/// The bits of the `f32` value zero.
pub const ZERO_BITS: u32 = 0;

/// The bits of the `f32` value one.
pub const ONE_BITS: u32 = 0x3F80_0000;

/// The bits of the default root noise concentration (three tenths).
pub const DEFAULT_DIRICHLET_ALPHA_BITS: u32 = 0x3E99_999A;

impl Default for SelfPlayConfig {
    fn default() -> (c: Self)
        ensures
            c == (SelfPlayConfig {
                simulations_per_move: 16,
                c_puct: ONE_BITS,
                temperature: ONE_BITS,
                ply_cap: 256,
                recurrence: 1,
                argmax_after_ply: None,
                root_dirichlet_alpha: DEFAULT_DIRICHLET_ALPHA_BITS,
                root_dirichlet_epsilon: ZERO_BITS,
            }),
    {
        SelfPlayConfig {
            simulations_per_move: 16,
            c_puct: ONE_BITS,
            temperature: ONE_BITS,
            ply_cap: 256,
            recurrence: 1,
            argmax_after_ply: None,
            root_dirichlet_alpha: DEFAULT_DIRICHLET_ALPHA_BITS,
            root_dirichlet_epsilon: ZERO_BITS,
        }
    }
}

impl SelfPlayConfig {
    /// The move-selection temperature (`f32` bits) at `ply` plies after the
    /// start: zero from `argmax_after_ply` on, the configured one before.
    pub fn temperature_at(&self, ply: u32) -> (r: u32)
        ensures
            r == (match self.argmax_after_ply {
                Some(n) => if ply >= n { ZERO_BITS } else { self.temperature },
                None => self.temperature,
            }),
    {
        match self.argmax_after_ply {
            Some(n) => if ply >= n { ZERO_BITS } else { self.temperature },
            None => self.temperature,
        }
    }
}

/// Why the game loop stops before searching the next ply: the rules ended
/// the game, or the ply cap was reached (a truncation). `None`: play on.
pub open spec fn game_stop_spec(engine_termination: Option<Termination>, ply: u32, ply_cap: u32) -> Option<Termination> {
    match engine_termination {
        Some(t) => Some(t),
        None => if ply >= ply_cap { Some(Termination::Truncated) } else { None },
    }
}

/// Decide whether the game loop stops (see [`game_stop_spec`]).
pub fn game_stop(engine_termination: Option<Termination>, ply: u32, ply_cap: u32) -> (r: Option<Termination>)
    ensures
        r == game_stop_spec(engine_termination, ply, ply_cap),
{
    match engine_termination {
        Some(t) => Some(t),
        None => if ply >= ply_cap { Some(Termination::Truncated) } else { None },
    }
}

/// How a game that stopped with `termination`, `to_move` to move, ended.
pub fn game_outcome(termination: Termination, to_move: Color) -> (r: Option<Outcome>)
    ensures
        r == outcome_spec(termination, to_move),
{
    termination.outcome(to_move)
}

/// A game the ply cap stopped is truncated and carries no result: the cap
/// never turns an unfinished game into a draw. A game the rules ended keeps
/// the rules' termination, and has a result exactly when that is a chess
/// result.
pub proof fn lemma_capped_game_has_no_result(engine_termination: Option<Termination>, ply: u32, ply_cap: u32, to_move: Color)
    requires
        game_stop_spec(engine_termination, ply, ply_cap) is Some,
    ensures
        engine_termination is None ==> game_stop_spec(engine_termination, ply, ply_cap) == Some(Termination::Truncated)
            && outcome_spec(Termination::Truncated, to_move) is None,
        (outcome_spec(game_stop_spec(engine_termination, ply, ply_cap)->Some_0, to_move) is Some) <==> is_result_spec(
            game_stop_spec(engine_termination, ply, ply_cap)->Some_0,
        ),
{
}

} // verus!
