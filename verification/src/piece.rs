use vstd::prelude::*;

use crate::force::Force;

verus! {

#[derive(Clone, Copy, PartialEq, Eq, Structural, Debug)]
pub enum PieceKind {
    Pawn,
    Knight,
    Bishop,
    Rook,
    Queen,
    King,
}

/// How a piece got onto the board. A captured `Promoted` piece goes back into
/// the partner's reserve as a pawn; `Dropped` rooks never castle.
#[derive(Clone, Copy, PartialEq, Eq, Structural, Debug)]
pub enum PieceOrigin {
    Innate,
    Promoted,
    Dropped,
}

/// Castling side, independent of starting file (relevant for Fischer random).
#[derive(Clone, Copy, PartialEq, Eq, Structural, Debug)]
pub enum CastleDirection {
    ASide,
    HSide,
}

#[derive(Clone, Copy, PartialEq, Eq, Structural, Debug)]
pub struct PieceOnBoard {
    pub kind: PieceKind,
    pub origin: PieceOrigin,
    /// Set on the two innate rooks; identifies which castling side the rook
    /// belongs to, whatever file it started on.
    pub rook_castling: Option<CastleDirection>,
    pub force: Force,
}

impl PieceOnBoard {
    pub fn new(
        kind: PieceKind,
        origin: PieceOrigin,
        rook_castling: Option<CastleDirection>,
        force: Force,
    ) -> (r: PieceOnBoard)
        ensures
            r == (PieceOnBoard { kind, origin, rook_castling, force }),
    {
        PieceOnBoard { kind, origin, rook_castling, force }
    }
}

/// The upper-case algebraic letter of a piece kind.
pub open spec fn piece_char(kind: PieceKind) -> char {
    match kind {
        PieceKind::Pawn => 'P',
        PieceKind::Knight => 'N',
        PieceKind::Bishop => 'B',
        PieceKind::Rook => 'R',
        PieceKind::Queen => 'Q',
        PieceKind::King => 'K',
    }
}

impl PieceKind {
    pub fn to_algebraic_char(self) -> (r: char)
        ensures
            r == piece_char(self),
    {
        match self {
            PieceKind::Pawn => 'P',
            PieceKind::Knight => 'N',
            PieceKind::Bishop => 'B',
            PieceKind::Rook => 'R',
            PieceKind::Queen => 'Q',
            PieceKind::King => 'K',
        }
    }

    pub fn from_algebraic_char(c: char) -> (r: Option<PieceKind>)
        ensures
            match r {
                Some(kind) => c == piece_char(kind),
                None => forall|kind: PieceKind| c != piece_char(kind),
            },
    {
        match c {
            'P' => Some(PieceKind::Pawn),
            'N' => Some(PieceKind::Knight),
            'B' => Some(PieceKind::Bishop),
            'R' => Some(PieceKind::Rook),
            'Q' => Some(PieceKind::Queen),
            'K' => Some(PieceKind::King),
            _ => None,
        }
    }
}

} // verus!
