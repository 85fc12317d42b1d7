//! The chess-result vocabulary that replay records and metrics are written in:
//! colors, outcomes and game terminations with their stable labels.

use vstd::prelude::*;

use crate::text::str_equal;

verus! {

/// A side.
#[derive(Debug, Clone, Copy, PartialEq, Eq, Structural)]
pub enum Color {
    White,
    Black,
}

/// A finished game's result.
#[derive(Debug, Clone, Copy, PartialEq, Eq, Structural)]
pub enum Outcome {
    Win(Color),
    Draw,
}

/// Why a game ended. `Truncated` and `Aborted` are administrative: they carry
/// no chess result.
#[derive(Debug, Clone, Copy, PartialEq, Eq, Structural)]
pub enum Termination {
    Checkmate,
    Stalemate,
    InsufficientMaterial,
    ThreefoldRepetition,
    FiftyMoveRule,
    Truncated,
    Aborted,
}

/// The opponent of `c`.
pub open spec fn opponent(c: Color) -> Color {
    match c {
        Color::White => Color::Black,
        Color::Black => Color::White,
    }
}

/// True for the terminations that are chess draws.
pub open spec fn is_draw_spec(t: Termination) -> bool {
    match t {
        Termination::Stalemate | Termination::InsufficientMaterial
        | Termination::ThreefoldRepetition | Termination::FiftyMoveRule => true,
        _ => false,
    }
}

/// True for the terminations that carry a chess result (WDL supervision).
pub open spec fn is_result_spec(t: Termination) -> bool {
    t == Termination::Checkmate || is_draw_spec(t)
}

/// The stable label of a termination, as written into replay.
pub open spec fn label_spec(t: Termination) -> Seq<char> {
    match t {
        Termination::Checkmate => seq!['c', 'h', 'e', 'c', 'k', 'm', 'a', 't', 'e'],
        Termination::Stalemate => seq!['s', 't', 'a', 'l', 'e', 'm', 'a', 't', 'e'],
        Termination::InsufficientMaterial => seq![
            'i', 'n', 's', 'u', 'f', 'f', 'i', 'c', 'i', 'e', 'n', 't', '_', 'm', 'a', 't', 'e',
            'r', 'i', 'a', 'l',
        ],
        Termination::ThreefoldRepetition => seq![
            't', 'h', 'r', 'e', 'e', 'f', 'o', 'l', 'd', '_', 'r', 'e', 'p', 'e', 't', 'i', 't',
            'i', 'o', 'n',
        ],
        Termination::FiftyMoveRule => seq![
            'f', 'i', 'f', 't', 'y', '_', 'm', 'o', 'v', 'e', '_', 'r', 'u', 'l', 'e',
        ],
        Termination::Truncated => seq!['t', 'r', 'u', 'n', 'c', 'a', 't', 'e', 'd'],
        Termination::Aborted => seq!['a', 'b', 'o', 'r', 't', 'e', 'd'],
    }
}

/// The termination whose label is `s`, if any.
pub open spec fn from_label_spec(s: Seq<char>) -> Option<Termination> {
    if s == label_spec(Termination::Checkmate) {
        Some(Termination::Checkmate)
    } else if s == label_spec(Termination::Stalemate) {
        Some(Termination::Stalemate)
    } else if s == label_spec(Termination::InsufficientMaterial) {
        Some(Termination::InsufficientMaterial)
    } else if s == label_spec(Termination::ThreefoldRepetition) {
        Some(Termination::ThreefoldRepetition)
    } else if s == label_spec(Termination::FiftyMoveRule) {
        Some(Termination::FiftyMoveRule)
    } else if s == label_spec(Termination::Truncated) {
        Some(Termination::Truncated)
    } else if s == label_spec(Termination::Aborted) {
        Some(Termination::Aborted)
    } else {
        None
    }
}

/// The result of a game that ended with `t` and `to_move` to move.
pub open spec fn outcome_spec(t: Termination, to_move: Color) -> Option<Outcome> {
    if t == Termination::Checkmate {
        Some(Outcome::Win(opponent(to_move)))
    } else if is_draw_spec(t) {
        Some(Outcome::Draw)
    } else {
        None
    }
}

impl Termination {
    /// True for the chess draws.
    pub fn is_draw(&self) -> (r: bool)
        ensures
            r == is_draw_spec(*self),
    {
        match self {
            Termination::Stalemate | Termination::InsufficientMaterial
            | Termination::ThreefoldRepetition | Termination::FiftyMoveRule => true,
            _ => false,
        }
    }

    /// True when the game carries a chess result.
    pub fn is_result(&self) -> (r: bool)
        ensures
            r == is_result_spec(*self),
    {
        match self {
            Termination::Checkmate => true,
            _ => self.is_draw(),
        }
    }

    /// The stable label written into replay.
    pub fn label(&self) -> (r: &'static str)
        ensures
            r@ == label_spec(*self),
    {
        proof {
            reveal_strlit("checkmate");
            reveal_strlit("stalemate");
            reveal_strlit("insufficient_material");
            reveal_strlit("threefold_repetition");
            reveal_strlit("fifty_move_rule");
            reveal_strlit("truncated");
            reveal_strlit("aborted");
        }
        match self {
            Termination::Checkmate => "checkmate",
            Termination::Stalemate => "stalemate",
            Termination::InsufficientMaterial => "insufficient_material",
            Termination::ThreefoldRepetition => "threefold_repetition",
            Termination::FiftyMoveRule => "fifty_move_rule",
            Termination::Truncated => "truncated",
            Termination::Aborted => "aborted",
        }
    }

    /// The result of a game that ended this way with `to_move` to move: the
    /// side to move has been mated, or the game is drawn, or (administrative
    /// endings) there is no result.
    pub fn outcome(&self, to_move: Color) -> (r: Option<Outcome>)
        ensures
            r == outcome_spec(*self, to_move),
    {
        match self {
            Termination::Checkmate => match to_move {
                Color::White => Some(Outcome::Win(Color::Black)),
                Color::Black => Some(Outcome::Win(Color::White)),
            },
            _ => if self.is_draw() {
                Some(Outcome::Draw)
            } else {
                None
            },
        }
    }
}

/// Parse a termination label back to the enum.
pub fn termination_from_label(label: &str) -> (r: Option<Termination>)
    ensures
        r == from_label_spec(label@),
{
    if str_equal(label, Termination::Checkmate.label()) {
        Some(Termination::Checkmate)
    } else if str_equal(label, Termination::Stalemate.label()) {
        Some(Termination::Stalemate)
    } else if str_equal(label, Termination::InsufficientMaterial.label()) {
        Some(Termination::InsufficientMaterial)
    } else if str_equal(label, Termination::ThreefoldRepetition.label()) {
        Some(Termination::ThreefoldRepetition)
    } else if str_equal(label, Termination::FiftyMoveRule.label()) {
        Some(Termination::FiftyMoveRule)
    } else if str_equal(label, Termination::Truncated.label()) {
        Some(Termination::Truncated)
    } else if str_equal(label, Termination::Aborted.label()) {
        Some(Termination::Aborted)
    } else {
        None
    }
}

/// Every label reads back as the termination it was written from.
pub proof fn lemma_label_round_trip(t: Termination)
    ensures
        from_label_spec(label_spec(t)) == Some(t),
{
    assert(label_spec(Termination::Checkmate) != label_spec(Termination::Stalemate));
    assert(label_spec(Termination::Checkmate) != label_spec(Termination::Truncated));
    assert(label_spec(Termination::Stalemate) != label_spec(Termination::Truncated));
    assert(label_spec(Termination::Checkmate) != label_spec(Termination::Aborted));
    assert(label_spec(Termination::Stalemate) != label_spec(Termination::Aborted));
    assert(label_spec(Termination::Truncated) != label_spec(Termination::Aborted));
    assert(label_spec(Termination::InsufficientMaterial) != label_spec(Termination::ThreefoldRepetition));
    assert(label_spec(Termination::InsufficientMaterial) != label_spec(Termination::FiftyMoveRule));
    assert(label_spec(Termination::ThreefoldRepetition) != label_spec(Termination::FiftyMoveRule));
}

} // verus!
