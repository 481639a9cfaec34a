use vstd::prelude::*;

use crate::coord::Coord;
use crate::piece::{CastleDirection, PieceKind};

verus! {

/// A move of a piece already on the board, with an optional promotion.
#[derive(Clone, Copy, PartialEq, Eq, Structural, Debug)]
pub struct TurnMove {
    pub from: Coord,
    pub to: Coord,
    pub promote_to: Option<PieceKind>,
}

/// Placing a piece from the reserve onto an empty square (bughouse only).
#[derive(Clone, Copy, PartialEq, Eq, Structural, Debug)]
pub struct TurnDrop {
    pub piece_kind: PieceKind,
    pub to: Coord,
}

/// A canonical turn. Note that castling cannot be expressed as a king
/// movement: in Fischer random the king may not move at all while castling.
#[derive(Clone, Copy, PartialEq, Eq, Structural, Debug)]
pub enum Turn {
    Move(TurnMove),
    Drop(TurnDrop),
    Castle(CastleDirection),
}

impl Turn {
    /// All coordinates mentioned by the turn lie on the board.
    pub open spec fn wf(self) -> bool {
        match self {
            Turn::Move(mv) => mv.from.wf() && mv.to.wf(),
            Turn::Drop(drop) => drop.to.wf(),
            Turn::Castle(_) => true,
        }
    }
}

/// How a client expresses a turn before it is reduced to a canonical `Turn`.
#[derive(Clone, PartialEq, Eq, Debug)]
pub enum TurnInput {
    Algebraic(String),
    DragDrop(Turn),
}

/// Whether a turn is checked as an immediate move or as a speculative
/// pre-turn (which is made out of order, so turn order, king safety and
/// status are not enforced).
#[derive(Clone, Copy, PartialEq, Eq, Structural, Debug)]
pub enum TurnMode {
    Normal,
    Preturn,
}

/// Everything that can be wrong with an attempted turn.
#[derive(Clone, Copy, PartialEq, Eq, Structural, Debug)]
pub enum TurnError {
    InvalidNotation,
    AmbiguousNotation,
    CaptureNotationRequiresCapture,
    PieceMissing,
    WrongTurnOrder,
    Unreachable,
    UnprotectedKing,
    CastlingPieceHasMoved,
    BadPromotion,
    DropForbidden,
    DropPieceMissing,
    DropPosition,
    DropAggression,
    GameOver,
    PreturnLimitReached,
}

} // verus!
