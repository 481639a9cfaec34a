use vstd::prelude::*;

use crate::clock::{Clock, GameInstant};
use crate::coord::{
    lemma_coord_index_bijective, spec_subjective_row, subjective_row_to_row, Coord,
};
use crate::force::Force;
use crate::grid::{at, Grid, GridView};
use crate::moves::{
    bughouse_mate_spec, capture_spec, chess_mate_spec, check_spec, find_king, get_capture,
    is_bughouse_mate_to, is_check_to, is_chess_mate_to, is_reachable, king_at, king_pos_spec,
    one_king, reachable_spec,
};
use crate::piece::{CastleDirection, PieceKind, PieceOnBoard, PieceOrigin};
use crate::rules::{BughouseRules, ChessRules, DropAggression};
use crate::turn::{Turn, TurnDrop, TurnError, TurnMove};

verus! {

#[derive(Clone, Copy, PartialEq, Eq, Structural, Debug)]
pub enum VictoryReason {
    Checkmate,
    Flag,
    Resignation,
}

#[derive(Clone, Copy, PartialEq, Eq, Structural, Debug)]
pub enum DrawReason {
    SimultaneousFlag,
    ThreefoldRepetition,
}

/// Status of a single-board chess game.
#[derive(Clone, Copy, PartialEq, Eq, Structural, Debug)]
pub enum ChessGameStatus {
    Active,
    Victory(Force, VictoryReason),
    Draw(DrawReason),
}

/// Which castling moves one force may still make, going by what has moved so
/// far (not taking checks or blocked paths into account).
#[derive(Clone, Copy, PartialEq, Eq, Structural, Debug)]
pub struct CastleRights {
    pub a_side: bool,
    pub h_side: bool,
}

impl CastleRights {
    pub open spec fn get(self, dir: CastleDirection) -> bool {
        match dir {
            CastleDirection::ASide => self.a_side,
            CastleDirection::HSide => self.h_side,
        }
    }

    /// Every right of `self` is also a right of `other`.
    pub open spec fn leq(self, other: CastleRights) -> bool {
        (self.a_side ==> other.a_side) && (self.h_side ==> other.h_side)
    }

    pub fn both() -> (r: CastleRights)
        ensures
            r == (CastleRights { a_side: true, h_side: true }),
    {
        CastleRights { a_side: true, h_side: true }
    }

    pub fn neither() -> (r: CastleRights)
        ensures
            r == (CastleRights { a_side: false, h_side: false }),
    {
        CastleRights { a_side: false, h_side: false }
    }
}

/// How many pieces of each kind a force holds in its reserve.
#[derive(Clone, Copy, PartialEq, Eq, Structural, Debug)]
pub struct Reserve {
    pub pawn: u8,
    pub knight: u8,
    pub bishop: u8,
    pub rook: u8,
    pub queen: u8,
    pub king: u8,
}

impl Reserve {
    pub open spec fn get(self, kind: PieceKind) -> u8 {
        match kind {
            PieceKind::Pawn => self.pawn,
            PieceKind::Knight => self.knight,
            PieceKind::Bishop => self.bishop,
            PieceKind::Rook => self.rook,
            PieceKind::Queen => self.queen,
            PieceKind::King => self.king,
        }
    }

    /// `self` with the count of one kind replaced.
    pub open spec fn spec_set(self, kind: PieceKind, v: u8) -> Reserve {
        match kind {
            PieceKind::Pawn => Reserve { pawn: v, ..self },
            PieceKind::Knight => Reserve { knight: v, ..self },
            PieceKind::Bishop => Reserve { bishop: v, ..self },
            PieceKind::Rook => Reserve { rook: v, ..self },
            PieceKind::Queen => Reserve { queen: v, ..self },
            PieceKind::King => Reserve { king: v, ..self },
        }
    }

    pub fn empty() -> (r: Reserve)
        ensures
            forall|kind: PieceKind| r.get(kind) == 0,
    {
        let r = Reserve { pawn: 0, knight: 0, bishop: 0, rook: 0, queen: 0, king: 0 };
        assert forall|kind: PieceKind| r.get(kind) == 0 by {
            match kind {
                PieceKind::Pawn => {},
                PieceKind::Knight => {},
                PieceKind::Bishop => {},
                PieceKind::Rook => {},
                PieceKind::Queen => {},
                PieceKind::King => {},
            }
        }
        r
    }

    pub fn count(&self, kind: PieceKind) -> (r: u8)
        ensures
            r == self.get(kind),
    {
        match kind {
            PieceKind::Pawn => self.pawn,
            PieceKind::Knight => self.knight,
            PieceKind::Bishop => self.bishop,
            PieceKind::Rook => self.rook,
            PieceKind::Queen => self.queen,
            PieceKind::King => self.king,
        }
    }

    pub fn set_count(&mut self, kind: PieceKind, v: u8)
        ensures
            *final(self) == old(self).spec_set(kind, v),
    {
        match kind {
            PieceKind::Pawn => self.pawn = v,
            PieceKind::Knight => self.knight = v,
            PieceKind::Bishop => self.bishop = v,
            PieceKind::Rook => self.rook = v,
            PieceKind::Queen => self.queen = v,
            PieceKind::King => self.king = v,
        }
    }
}

/// What a successful capturing turn removed from the board; handed to the
/// partner board's reserve by the surrounding bughouse game.
#[derive(Clone, Copy, PartialEq, Eq, Structural, Debug)]
pub struct Capture {
    pub piece_kind: PieceKind,
    pub origin: PieceOrigin,
    pub force: Force,
}

impl Capture {
    /// What the captured piece turns into when it enters a reserve: a
    /// promoted piece goes back as the pawn it once was.
    pub open spec fn spec_effective_kind(self) -> PieceKind {
        if self.origin == PieceOrigin::Promoted {
            PieceKind::Pawn
        } else {
            self.piece_kind
        }
    }

    pub fn effective_kind(&self) -> (r: PieceKind)
        ensures
            r == self.spec_effective_kind(),
    {
        if self.origin == PieceOrigin::Promoted {
            PieceKind::Pawn
        } else {
            self.piece_kind
        }
    }
}

/// Tagged pieces are rooks: the `rook_castling` mark never sits on another
/// piece kind.
pub open spec fn tagged_rooks_ok(g: GridView) -> bool {
    forall|i: int|
        0 <= i < 64 ==> (#[trigger] g[i] matches Some(p) ==> (p.rook_castling is Some ==> p.kind
            == PieceKind::Rook))
}

/// What a grid must look like for a game to start on it.
pub open spec fn starting_grid_ok(g: GridView) -> bool {
    &&& g.len() == 64
    &&& one_king(g, Force::White)
    &&& one_king(g, Force::Black)
    &&& tagged_rooks_ok(g)
    &&& !check_spec(g, king_pos_spec(g, Force::Black))
}

/// One board of a chess or bughouse game.
pub struct Board {
    pub chess_rules: ChessRules,
    pub bughouse_rules: Option<BughouseRules>,
    pub status: ChessGameStatus,
    pub grid: Grid,
    pub castle_rights_white: CastleRights,
    pub castle_rights_black: CastleRights,
    pub reserve_white: Reserve,
    pub reserve_black: Reserve,
    pub last_turn: Option<Turn>,
    pub active_force: Force,
    pub clock: Clock,
}

impl Board {
    pub open spec fn rights(self, force: Force) -> CastleRights {
        match force {
            Force::White => self.castle_rights_white,
            Force::Black => self.castle_rights_black,
        }
    }

    pub open spec fn reserve(self, force: Force) -> Reserve {
        match force {
            Force::White => self.reserve_white,
            Force::Black => self.reserve_black,
        }
    }

    /// The core board invariant: exactly one king of each force, the
    /// castling tags sit on rooks only, no king ever enters a reserve, and
    /// all recorded coordinates lie on the board.
    pub open spec fn wf_core(self) -> bool {
        &&& self.grid.wf()
        &&& one_king(self.grid@, Force::White)
        &&& one_king(self.grid@, Force::Black)
        &&& tagged_rooks_ok(self.grid@)
        &&& (self.last_turn matches Some(t) ==> t.wf())
        &&& (self.last_turn matches Some(Turn::Move(lm)) ==> at(self.grid@, lm.to) is Some && at(
            self.grid@,
            lm.to,
        )->0.force != self.active_force)
        &&& self.reserve_white.king == 0 && self.reserve_black.king == 0
        &&& (self.bughouse_rules matches Some(br) ==> br.wf())
    }

    /// The full board invariant: additionally, the force that has just
    /// moved is not left in check. A speculative pre-turn, made out of
    /// order, may suspend this part until the position is reconciled.
    pub open spec fn wf(self) -> bool {
        &&& self.wf_core()
        &&& !check_spec(self.grid@, king_pos_spec(self.grid@, self.active_force.opponent()))
    }

    pub fn new(
        chess_rules: ChessRules,
        bughouse_rules: Option<BughouseRules>,
        starting_grid: Grid,
    ) -> (r: Board)
        requires
            starting_grid_ok(starting_grid@),
            bughouse_rules matches Some(br) ==> br.wf(),
        ensures
            r.wf(),
            r.chess_rules == chess_rules,
            r.bughouse_rules == bughouse_rules,
            r.status == ChessGameStatus::Active,
            r.grid@ == starting_grid@,
            r.castle_rights_white == (CastleRights { a_side: true, h_side: true }),
            r.castle_rights_black == (CastleRights { a_side: true, h_side: true }),
            forall|f: Force, kind: PieceKind| r.reserve(f).get(kind) == 0,
            r.last_turn is None,
            r.active_force == Force::White,
            r.clock.spec_turn_state() is None,
            forall|f: Force| r.clock.remaining(f) == chess_rules.time_control.starting_time_ms,
    {
        let r = Board {
            chess_rules,
            bughouse_rules,
            status: ChessGameStatus::Active,
            grid: starting_grid,
            castle_rights_white: CastleRights::both(),
            castle_rights_black: CastleRights::both(),
            reserve_white: Reserve::empty(),
            reserve_black: Reserve::empty(),
            last_turn: None,
            active_force: Force::White,
            clock: Clock::new(&chess_rules.time_control),
        };
        assert forall|f: Force, kind: PieceKind| r.reserve(f).get(kind) == 0 by {
            match f {
                Force::White => {},
                Force::Black => {},
            }
        }
        assert forall|f: Force| r.clock.remaining(f)
            == chess_rules.time_control.starting_time_ms by {
            match f {
                Force::White => {},
                Force::Black => {},
            }
        }
        assert(r.reserve_white.get(PieceKind::King) == 0 && r.reserve_black.get(PieceKind::King)
            == 0);
        r
    }

    pub fn grid(&self) -> (r: &Grid)
        ensures
            r == &self.grid,
    {
        &self.grid
    }

    pub fn status(&self) -> (r: ChessGameStatus)
        ensures
            r == self.status,
    {
        self.status
    }

    pub fn active_force(&self) -> (r: Force)
        ensures
            r == self.active_force,
    {
        self.active_force
    }

    pub fn set_status(&mut self, status: ChessGameStatus)
        requires
            old(self).wf(),
        ensures
            final(self).wf(),
            *final(self) == (Board { status, ..*old(self) }),
    {
        self.status = status;
    }

    /// Adds a piece captured on the partner board to the matching reserve,
    /// demoting a once-promoted piece back to a pawn. Counts saturate at
    /// their maximum rather than wrap.
    pub fn receive_capture(&mut self, capture: &Capture)
        requires
            old(self).wf_core(),
            capture.piece_kind != PieceKind::King,
        ensures
            final(self).wf_core(),
            old(self).wf() ==> final(self).wf(),
            *final(self) == (Board {
                reserve_white: final(self).reserve_white,
                reserve_black: final(self).reserve_black,
                ..*old(self)
            }),
            forall|f: Force|
                final(self).reserve(f) == if f == capture.force {
                    old(self).reserve(f).spec_set(
                        capture.spec_effective_kind(),
                        if old(self).reserve(f).get(capture.spec_effective_kind()) < 255 {
                            (old(self).reserve(f).get(capture.spec_effective_kind()) + 1) as u8
                        } else {
                            255u8
                        },
                    )
                } else {
                    old(self).reserve(f)
                },
    {
        let kind = capture.effective_kind();
        let reserve = match capture.force {
            Force::White => &mut self.reserve_white,
            Force::Black => &mut self.reserve_black,
        };
        let count = reserve.count(kind);
        let bumped = if count < 255 {
            count + 1
        } else {
            255
        };
        reserve.set_count(kind, bumped);
        assert forall|f: Force|
            self.reserve(f) == if f == capture.force {
                old(self).reserve(f).spec_set(
                    capture.spec_effective_kind(),
                    if old(self).reserve(f).get(capture.spec_effective_kind()) < 255 {
                        (old(self).reserve(f).get(capture.spec_effective_kind()) + 1) as u8
                    } else {
                        255u8
                    },
                )
            } else {
                old(self).reserve(f)
            } by {
            match f {
                Force::White => {},
                Force::Black => {},
            }
        }
    }
}

/// A pawn reaching the far rank must promote.
pub open spec fn should_promote_spec(force: Force, piece_kind: PieceKind, to: Coord) -> bool {
    piece_kind == PieceKind::Pawn && to.row == spec_subjective_row(8, force)
}

pub fn should_promote(force: Force, piece_kind: PieceKind, to: Coord) -> (r: bool)
    ensures
        r == should_promote_spec(force, piece_kind, to),
{
    let last_row = subjective_row_to_row(8, force);
    piece_kind == PieceKind::Pawn && to.row == last_row
}

pub open spec fn can_promote_to_spec(piece_kind: PieceKind) -> bool {
    match piece_kind {
        PieceKind::Pawn | PieceKind::King => false,
        PieceKind::Knight | PieceKind::Bishop | PieceKind::Rook | PieceKind::Queen => true,
    }
}

pub fn can_promote_to(piece_kind: PieceKind) -> (r: bool)
    ensures
        r == can_promote_to_spec(piece_kind),
{
    match piece_kind {
        PieceKind::Pawn | PieceKind::King => false,
        PieceKind::Knight | PieceKind::Bishop | PieceKind::Rook | PieceKind::Queen => true,
    }
}

} // verus!

// The outcome of each turn variant before the king safety test, as a
// mathematical function of the board.
verus! {

pub open spec fn promoted_piece(kind: PieceKind, force: Force) -> PieceOnBoard {
    PieceOnBoard { kind, origin: PieceOrigin::Promoted, rook_castling: None, force }
}

pub open spec fn dropped_piece(kind: PieceKind, force: Force) -> PieceOnBoard {
    PieceOnBoard { kind, origin: PieceOrigin::Dropped, rook_castling: None, force }
}

/// The king piece speculatively placed on each square of the castling path
/// while testing it for attacks.
pub open spec fn castle_test_king(force: Force) -> PieceOnBoard {
    PieceOnBoard { kind: PieceKind::King, origin: PieceOrigin::Innate, rook_castling: None, force }
}

/// New grid and capture of a `Move` turn, or the error that rejects it.
pub open spec fn move_outcome(
    g: GridView,
    force: Force,
    last: Option<Turn>,
    mv: TurnMove,
) -> Result<(GridView, Option<Capture>), TurnError> {
    match at(g, mv.from) {
        None => Err(TurnError::PieceMissing),
        Some(piece) => if piece.force != force {
            Err(TurnError::WrongTurnOrder)
        } else {
            let cap_pos = capture_spec(g, mv.from, mv.to, last);
            if !reachable_spec(g, mv.from, mv.to, cap_pos is Some) {
                Err(TurnError::Unreachable)
            } else {
                let capture = match cap_pos {
                    Some(cp) => Some(
                        Capture {
                            piece_kind: at(g, cp)->0.kind,
                            origin: at(g, cp)->0.origin,
                            force: at(g, cp)->0.force,
                        },
                    ),
                    None => None,
                };
                let g1 = g.update(mv.from.index(), None);
                let g2 = match cap_pos {
                    Some(cp) => g1.update(cp.index(), None),
                    None => g1,
                };
                if should_promote_spec(force, piece.kind, mv.to) {
                    match mv.promote_to {
                        Some(pt) => if can_promote_to_spec(pt) {
                            Ok((g2.update(mv.to.index(), Some(promoted_piece(pt, force))), capture))
                        } else {
                            Err(TurnError::BadPromotion)
                        },
                        None => Err(TurnError::BadPromotion),
                    }
                } else {
                    if mv.promote_to is Some {
                        Err(TurnError::BadPromotion)
                    } else {
                        Ok((g2.update(mv.to.index(), Some(piece)), capture))
                    }
                }
            }
        },
    }
}

/// Subjective one-based rank of an absolute row, as seen by a force.
pub open spec fn subjective_of_row(row: u8, force: Force) -> int {
    match force {
        Force::White => row + 1,
        Force::Black => 8 - row,
    }
}

/// New grid of a `Drop` turn, or the error that rejects it.
pub open spec fn drop_outcome(
    g: GridView,
    force: Force,
    reserve: Reserve,
    bughouse_rules: Option<BughouseRules>,
    drop: TurnDrop,
) -> Result<(GridView, Option<Capture>), TurnError> {
    match bughouse_rules {
        None => Err(TurnError::DropForbidden),
        Some(br) => {
            if drop.piece_kind == PieceKind::Pawn && (subjective_of_row(drop.to.row, force)
                < br.min_pawn_drop_row || subjective_of_row(drop.to.row, force)
                > br.max_pawn_drop_row) {
                Err(TurnError::DropPosition)
            } else if reserve.get(drop.piece_kind) < 1 {
                Err(TurnError::DropPieceMissing)
            } else if at(g, drop.to) is Some {
                Err(TurnError::DropPosition)
            } else {
                Ok(
                    (
                        g.update(drop.to.index(), Some(dropped_piece(drop.piece_kind, force))),
                        None,
                    ),
                )
            }
        },
    }
}

/// First column at or after `c` on `row` holding the force's king.
pub open spec fn king_col_from(g: GridView, row: u8, force: Force, c: int) -> Option<u8>
    decreases 8 - c,
{
    if c < 0 || c >= 8 {
        None
    } else if at(g, Coord { row, col: c as u8 }) matches Some(p) && p.force == force && p.kind
        == PieceKind::King {
        Some(c as u8)
    } else {
        king_col_from(g, row, force, c + 1)
    }
}

/// First column at or after `c` on `row` holding the force's rook tagged for
/// castling side `dir`.
pub open spec fn rook_col_from(
    g: GridView,
    row: u8,
    force: Force,
    dir: CastleDirection,
    c: int,
) -> Option<u8>
    decreases 8 - c,
{
    if c < 0 || c >= 8 {
        None
    } else if at(g, Coord { row, col: c as u8 }) matches Some(p) && p.force == force
        && p.rook_castling == Some(dir) {
        Some(c as u8)
    } else {
        rook_col_from(g, row, force, dir, c + 1)
    }
}

pub proof fn lemma_king_col_found(g: GridView, row: u8, force: Force, c: int)
    requires
        king_col_from(g, row, force, c) is Some,
    ensures
        ({
            let col = king_col_from(g, row, force, c)->0;
            &&& c <= col < 8
            &&& at(g, Coord { row, col }) matches Some(p) && p.force == force && p.kind
                == PieceKind::King
        }),
    decreases 8 - c,
{
    if !(c < 0 || c >= 8) {
        if at(g, Coord { row, col: c as u8 }) matches Some(p) && p.force == force && p.kind
            == PieceKind::King {
        } else {
            lemma_king_col_found(g, row, force, c + 1);
        }
    }
}

pub proof fn lemma_rook_col_found(g: GridView, row: u8, force: Force, dir: CastleDirection, c: int)
    requires
        rook_col_from(g, row, force, dir, c) is Some,
    ensures
        ({
            let col = rook_col_from(g, row, force, dir, c)->0;
            &&& c <= col < 8
            &&& at(g, Coord { row, col }) matches Some(p) && p.force == force && p.rook_castling
                == Some(dir)
        }),
    decreases 8 - c,
{
    if !(c < 0 || c >= 8) {
        if at(g, Coord { row, col: c as u8 }) matches Some(p) && p.force == force
            && p.rook_castling == Some(dir) {
        } else {
            lemma_rook_col_found(g, row, force, dir, c + 1);
        }
    }
}

pub open spec fn castle_king_to_col(dir: CastleDirection) -> u8 {
    match dir {
        CastleDirection::ASide => 2,
        CastleDirection::HSide => 6,
    }
}

pub open spec fn castle_rook_to_col(dir: CastleDirection) -> u8 {
    match dir {
        CastleDirection::ASide => 3,
        CastleDirection::HSide => 5,
    }
}

/// New grid of a `Castle` turn, or the error that rejects it. All squares
/// between the outermost of the four from/to squares must be empty (apart
/// from the king and rook themselves), and no square the king crosses,
/// origin and destination included, may be attacked.
pub open spec fn castle_outcome(
    g: GridView,
    force: Force,
    rights: CastleRights,
    dir: CastleDirection,
) -> Result<(GridView, Option<Capture>), TurnError> {
    if !rights.get(dir) {
        Err(TurnError::CastlingPieceHasMoved)
    } else {
        let row = spec_subjective_row(1, force) as u8;
        match (king_col_from(g, row, force, 0), rook_col_from(g, row, force, dir, 0)) {
            (Some(kf), Some(rf)) => {
                let king = at(g, Coord { row, col: kf })->0;
                let rook = at(g, Coord { row, col: rf })->0;
                let g1 = g.update(Coord { row, col: kf }.index(), None).update(
                    Coord { row, col: rf }.index(),
                    None,
                );
                let kt = castle_king_to_col(dir);
                let rt = castle_rook_to_col(dir);
                let lo = crate::moves::imin(
                    crate::moves::imin(kf as int, kt as int),
                    crate::moves::imin(rf as int, rt as int),
                );
                let hi = crate::moves::imax(
                    crate::moves::imax(kf as int, kt as int),
                    crate::moves::imax(rf as int, rt as int),
                );
                if exists|c: int|
                    lo <= c <= hi && #[trigger] at(g1, Coord { row, col: c as u8 }) is Some {
                    Err(TurnError::Unreachable)
                } else if exists|c: int|
                    crate::moves::imin(kf as int, kt as int) <= c <= crate::moves::imax(
                        kf as int,
                        kt as int,
                    ) && #[trigger] check_spec(
                        g1.update(Coord { row, col: c as u8 }.index(), Some(castle_test_king(force))),
                        Coord { row, col: c as u8 },
                    ) {
                    Err(TurnError::UnprotectedKing)
                } else {
                    Ok(
                        (
                            g1.update(Coord { row, col: kt }.index(), Some(king)).update(
                                Coord { row, col: rt }.index(),
                                Some(rook),
                            ),
                            None,
                        ),
                    )
                }
            },
            _ => Err(TurnError::CastlingPieceHasMoved),
        }
    }
}

/// The outcome of a turn made by `force` before the king safety test: the
/// candidate new grid and the capture it makes, or the error that rejects
/// the turn.
pub open spec fn turn_outcome_f(b: Board, force: Force, turn: Turn) -> Result<
    (GridView, Option<Capture>),
    TurnError,
> {
    match turn {
        Turn::Move(mv) => move_outcome(b.grid@, force, b.last_turn, mv),
        Turn::Drop(drop) => drop_outcome(b.grid@, force, b.reserve(force), b.bughouse_rules, drop),
        Turn::Castle(dir) => castle_outcome(b.grid@, force, b.rights(force), dir),
    }
}

/// The outcome of a turn of the active force.
pub open spec fn turn_outcome(b: Board, turn: Turn) -> Result<
    (GridView, Option<Capture>),
    TurnError,
> {
    turn_outcome_f(b, b.active_force, turn)
}

} // verus!

// Executable turn checking.
verus! {

#[verifier::loop_isolation(false)]
fn find_king_col(grid: &Grid, row: u8, force: Force) -> (r: Option<u8>)
    requires
        grid.wf(),
        row < 8,
    ensures
        r == king_col_from(grid@, row, force, 0),
{
    let mut c: u8 = 0;
    while c < 8
        invariant
            c <= 8,
            king_col_from(grid@, row, force, 0) == king_col_from(grid@, row, force, c as int),
        decreases 8 - c,
    {
        let pos = Coord { row, col: c };
        if let Some(p) = grid.get(pos) {
            if p.force == force && p.kind == PieceKind::King {
                return Some(c);
            }
        }
        c = c + 1;
    }
    None
}

#[verifier::loop_isolation(false)]
fn find_rook_col(grid: &Grid, row: u8, force: Force, dir: CastleDirection) -> (r: Option<u8>)
    requires
        grid.wf(),
        row < 8,
    ensures
        r == rook_col_from(grid@, row, force, dir, 0),
{
    let mut c: u8 = 0;
    while c < 8
        invariant
            c <= 8,
            rook_col_from(grid@, row, force, dir, 0) == rook_col_from(
                grid@,
                row,
                force,
                dir,
                c as int,
            ),
        decreases 8 - c,
    {
        let pos = Coord { row, col: c };
        if let Some(p) = grid.get(pos) {
            if p.force == force {
                let tag_matches = match p.rook_castling {
                    Some(d) => d == dir,
                    None => false,
                };
                if tag_matches {
                    return Some(c);
                }
            }
        }
        c = c + 1;
    }
    None
}

impl Board {
    /// Attempts a castle by `force`, returning the new grid.
    #[verifier::loop_isolation(false)]
    fn castle_attempt(&self, force: Force, dir: CastleDirection) -> (r: Result<Grid, TurnError>)
        requires
            self.wf_core(),
        ensures
            match castle_outcome(self.grid@, force, self.rights(force), dir) {
                Ok(p) => r matches Ok(ng) && ng@ == p.0 && ng.wf(),
                Err(e) => r matches Err(e2) && e2 == e,
            },
    {
        let rights = match force {
            Force::White => self.castle_rights_white,
            Force::Black => self.castle_rights_black,
        };
        let has_right = match dir {
            CastleDirection::ASide => rights.a_side,
            CastleDirection::HSide => rights.h_side,
        };
        if !has_right {
            return Err(TurnError::CastlingPieceHasMoved);
        }
        let row = subjective_row_to_row(1, force);
        let king_col = match find_king_col(&self.grid, row, force) {
            Some(c) => c,
            None => {
                return Err(TurnError::CastlingPieceHasMoved);
            },
        };
        let rook_col = match find_rook_col(&self.grid, row, force, dir) {
            Some(c) => c,
            None => {
                return Err(TurnError::CastlingPieceHasMoved);
            },
        };
        proof {
            lemma_king_col_found(self.grid@, row, force, 0);
            lemma_rook_col_found(self.grid@, row, force, dir, 0);
        }
        let king_from = Coord { row, col: king_col };
        let rook_from = Coord { row, col: rook_col };
        let king_piece = self.grid.get(king_from).unwrap();
        let rook_piece = self.grid.get(rook_from).unwrap();
        let mut new_grid = self.grid.duplicate();
        new_grid.set(king_from, None);
        new_grid.set(rook_from, None);
        let king_to_col: u8 = match dir {
            CastleDirection::ASide => 2,
            CastleDirection::HSide => 6,
        };
        let rook_to_col: u8 = match dir {
            CastleDirection::ASide => 3,
            CastleDirection::HSide => 5,
        };
        let lo1 = if king_col <= king_to_col {
            king_col
        } else {
            king_to_col
        };
        let lo2 = if rook_col <= rook_to_col {
            rook_col
        } else {
            rook_to_col
        };
        let lo = if lo1 <= lo2 {
            lo1
        } else {
            lo2
        };
        let hi1 = if king_col >= king_to_col {
            king_col
        } else {
            king_to_col
        };
        let hi2 = if rook_col >= rook_to_col {
            rook_col
        } else {
            rook_to_col
        };
        let hi = if hi1 >= hi2 {
            hi1
        } else {
            hi2
        };
        let mut c: u8 = lo;
        while c <= hi
            invariant
                lo <= c <= hi + 1,
                forall|j: int|
                    lo <= j < c ==> #[trigger] at(new_grid@, Coord { row, col: j as u8 }) is None,
            decreases hi + 1 - c,
        {
            let pos = Coord { row, col: c };
            if new_grid.get(pos).is_some() {
                assert(at(new_grid@, Coord { row, col: c as int as u8 }) is Some);
                return Err(TurnError::Unreachable);
            }
            c = c + 1;
        }
        assert(!(exists|j: int|
            lo <= j <= hi && #[trigger] at(new_grid@, Coord { row, col: j as u8 }) is Some));
        let scan_lo = if king_col <= king_to_col {
            king_col
        } else {
            king_to_col
        };
        let scan_hi = if king_col >= king_to_col {
            king_col
        } else {
            king_to_col
        };
        let mut c: u8 = scan_lo;
        while c <= scan_hi
            invariant
                scan_lo <= c <= scan_hi + 1,
                forall|j: int|
                    scan_lo <= j < c ==> !check_spec(
                        #[trigger] new_grid@.update(
                            Coord { row, col: j as u8 }.index(),
                            Some(castle_test_king(force)),
                        ),
                        Coord { row, col: j as u8 },
                    ),
            decreases scan_hi + 1 - c,
        {
            let pos = Coord { row, col: c };
            let mut test_grid = new_grid.duplicate();
            test_grid.set(
                pos,
                Some(
                    PieceOnBoard {
                        kind: PieceKind::King,
                        origin: PieceOrigin::Innate,
                        rook_castling: None,
                        force,
                    },
                ),
            );
            if is_check_to(&test_grid, pos) {
                assert(check_spec(
                    new_grid@.update(
                        Coord { row, col: c as int as u8 }.index(),
                        Some(castle_test_king(force)),
                    ),
                    Coord { row, col: c as int as u8 },
                ));
                return Err(TurnError::UnprotectedKing);
            }
            c = c + 1;
        }
        assert(!(exists|j: int|
            scan_lo <= j <= scan_hi && #[trigger] check_spec(
                new_grid@.update(
                    Coord { row, col: j as u8 }.index(),
                    Some(castle_test_king(force)),
                ),
                Coord { row, col: j as u8 },
            )));
        let king_to = Coord { row, col: king_to_col };
        let rook_to = Coord { row, col: rook_to_col };
        new_grid.set(king_to, Some(king_piece));
        new_grid.set(rook_to, Some(rook_piece));
        Ok(new_grid)
    }
}

} // verus!

verus! {

impl Board {
    /// Checks a turn by `force` and builds the candidate new grid and the
    /// capture it makes. King safety, drop aggression and the commit are the
    /// caller's concern. Decides `turn_outcome_f`.
    fn try_turn_no_check_test(&self, force: Force, turn: &Turn) -> (r: Result<
        (Grid, Option<Capture>),
        TurnError,
    >)
        requires
            self.wf_core(),
            turn.wf(),
        ensures
            match turn_outcome_f(*self, force, *turn) {
                Ok(p) => r matches Ok(q) && q.0@ == p.0 && q.0.wf() && q.1 == p.1,
                Err(e) => r matches Err(e2) && e2 == e,
            },
    {
        match turn {
            Turn::Move(mv) => {
                let piece = match self.grid.get(mv.from) {
                    Some(p) => p,
                    None => {
                        return Err(TurnError::PieceMissing);
                    },
                };
                if piece.force != force {
                    return Err(TurnError::WrongTurnOrder);
                }
                let capture_pos_or = get_capture(&self.grid, mv.from, mv.to, &self.last_turn);
                if !is_reachable(&self.grid, mv.from, mv.to, capture_pos_or.is_some()) {
                    return Err(TurnError::Unreachable);
                }
                let mut new_grid = self.grid.duplicate();
                new_grid.set(mv.from, None);
                let mut capture: Option<Capture> = None;
                if let Some(capture_pos) = capture_pos_or {
                    assert(capture_pos.wf() && capture_pos != mv.from && at(
                        self.grid@,
                        capture_pos,
                    ) is Some) by {
                        if at(self.grid@, mv.to) is None {
                            assert(self.last_turn matches Some(Turn::Move(lm))
                                && capture_pos == lm.to);
                        }
                    }
                    let captured = new_grid.get(capture_pos).unwrap();
                    capture = Some(
                        Capture {
                            piece_kind: captured.kind,
                            origin: captured.origin,
                            force: captured.force,
                        },
                    );
                    new_grid.set(capture_pos, None);
                }
                if should_promote(force, piece.kind, mv.to) {
                    match mv.promote_to {
                        Some(promote_to) => {
                            if can_promote_to(promote_to) {
                                new_grid.set(
                                    mv.to,
                                    Some(
                                        PieceOnBoard {
                                            kind: promote_to,
                                            origin: PieceOrigin::Promoted,
                                            rook_castling: None,
                                            force,
                                        },
                                    ),
                                );
                                Ok((new_grid, capture))
                            } else {
                                Err(TurnError::BadPromotion)
                            }
                        },
                        None => Err(TurnError::BadPromotion),
                    }
                } else {
                    if mv.promote_to.is_some() {
                        Err(TurnError::BadPromotion)
                    } else {
                        new_grid.set(mv.to, Some(piece));
                        Ok((new_grid, capture))
                    }
                }
            },
            Turn::Drop(drop) => {
                let bughouse_rules = match &self.bughouse_rules {
                    Some(br) => br,
                    None => {
                        return Err(TurnError::DropForbidden);
                    },
                };
                if drop.piece_kind == PieceKind::Pawn {
                    let subjective = match force {
                        Force::White => drop.to.row + 1,
                        Force::Black => 8 - drop.to.row,
                    };
                    if subjective < bughouse_rules.min_pawn_drop_row || subjective
                        > bughouse_rules.max_pawn_drop_row {
                        return Err(TurnError::DropPosition);
                    }
                }
                let reserve = match force {
                    Force::White => &self.reserve_white,
                    Force::Black => &self.reserve_black,
                };
                if reserve.count(drop.piece_kind) < 1 {
                    return Err(TurnError::DropPieceMissing);
                }
                if self.grid.get(drop.to).is_some() {
                    return Err(TurnError::DropPosition);
                }
                let mut new_grid = self.grid.duplicate();
                new_grid.set(
                    drop.to,
                    Some(
                        PieceOnBoard {
                            kind: drop.piece_kind,
                            origin: PieceOrigin::Dropped,
                            rook_castling: None,
                            force,
                        },
                    ),
                );
                Ok((new_grid, None))
            },
            Turn::Castle(dir) => {
                match self.castle_attempt(force, *dir) {
                    Ok(new_grid) => Ok((new_grid, None)),
                    Err(e) => Err(e),
                }
            },
        }
    }
}

} // verus!

// Preservation of the board invariant across a successful turn outcome.
verus! {

/// A capture made by the active force never takes a king (the opponent
/// would have had to leave their king in check) and always takes an enemy
/// piece.
pub proof fn lemma_safe_capture(b: Board, turn: Turn)
    requires
        b.wf(),
        turn.wf(),
        turn_outcome(b, turn) is Ok,
    ensures
        turn_outcome(b, turn)->Ok_0.1 matches Some(cap) ==> cap.piece_kind != PieceKind::King
            && cap.force == b.active_force.opponent(),
{
    broadcast use lemma_coord_index_bijective;

    let g = b.grid@;
    let force = b.active_force;
    let opp = force.opponent();
    match turn {
        Turn::Move(mv) => {
            let piece = at(g, mv.from)->0;
            let cap_pos = capture_spec(g, mv.from, mv.to, b.last_turn);
            assert(reachable_spec(g, mv.from, mv.to, cap_pos is Some));
            match cap_pos {
                Some(cp) => {
                    assert(at(g, cp) is Some);
                    if cp == mv.to {
                        if at(g, cp)->0.kind == PieceKind::King {
                            let okp = king_pos_spec(g, opp);
                            assert(at(g, cp)->0.force != force);
                            assert(king_at(g, cp, opp));
                            assert(okp == cp);
                            assert(crate::moves::attacks_king(g, mv.from.index(), cp)) by {
                                assert(crate::coord::coord_of_index(mv.from.index()) == mv.from);
                            }
                            assert(check_spec(g, okp));
                            assert(false);
                        }
                    } else {
                        assert(b.last_turn matches Some(Turn::Move(lm)) && cp == lm.to);
                        assert(at(g, cp)->0.kind == PieceKind::Pawn);
                        assert(at(g, cp)->0.force != force);
                    }
                },
                None => {},
            }
        },
        _ => {},
    }
}

/// A successful turn outcome by `force` that does not capture a king keeps
/// exactly one king of each force on the board, leaves the other force's
/// king where it was, and keeps the castling tags on rooks.
pub proof fn lemma_outcome_kings_f(b: Board, force: Force, turn: Turn)
    requires
        b.wf_core(),
        turn.wf(),
        turn_outcome_f(b, force, turn) is Ok,
        turn_outcome_f(b, force, turn)->Ok_0.1 matches Some(cap) ==> cap.piece_kind
            != PieceKind::King && cap.force != force,
    ensures
        ({
            let p = turn_outcome_f(b, force, turn)->Ok_0;
            let g2 = p.0;
            &&& g2.len() == 64
            &&& one_king(g2, Force::White)
            &&& one_king(g2, Force::Black)
            &&& king_pos_spec(g2, force.opponent()) == king_pos_spec(b.grid@, force.opponent())
            &&& tagged_rooks_ok(g2)
            &&& (turn matches Turn::Move(mv) ==> at(g2, mv.to) is Some && at(g2, mv.to)->0.force
                == force)
            &&& (turn matches Turn::Drop(d) ==> at(g2, d.to) is Some && at(g2, d.to)->0.force
                == force)
        }),
{
    broadcast use lemma_coord_index_bijective;

    let g = b.grid@;
    let opp = force.opponent();
    let p = turn_outcome_f(b, force, turn)->Ok_0;
    let g2 = p.0;
    assert(king_at(g, king_pos_spec(g, Force::White), Force::White)) by {
        assert(one_king(g, Force::White));
    }
    assert(king_at(g, king_pos_spec(g, Force::Black), Force::Black)) by {
        assert(one_king(g, Force::Black));
    }
    match turn {
        Turn::Move(mv) => {
            let piece = at(g, mv.from)->0;
            let cap_pos = capture_spec(g, mv.from, mv.to, b.last_turn);
            assert(reachable_spec(g, mv.from, mv.to, cap_pos is Some));
            assert(mv.to != mv.from);
            match cap_pos {
                Some(cp) => {
                    assert(at(g, cp) is Some);
                    assert(at(g, cp)->0.kind != PieceKind::King);
                    assert(at(g, cp)->0.force != force);
                    assert(at(g, cp)->0.force == opp);
                    assert(cp != mv.from);
                },
                None => {},
            }
            assert forall|f: Force| one_king(g2, f) && king_at(
                g2,
                if piece.kind == PieceKind::King && f == force {
                    mv.to
                } else {
                    king_pos_spec(g, f)
                },
                f,
            ) by {
                assert(one_king(g, f)) by {
                    match f {
                        Force::White => {},
                        Force::Black => {},
                    }
                }
                let kp = king_pos_spec(g, f);
                let new_kp = if piece.kind == PieceKind::King && f == force {
                    mv.to
                } else {
                    kp
                };
                assert(king_at(g, kp, f));
                // The new position holds the king.
                if piece.kind == PieceKind::King && f == force {
                    assert(!should_promote_spec(force, piece.kind, mv.to));
                    assert(at(g2, mv.to) == Some(piece));
                } else {
                    assert(kp != mv.from);
                    match cap_pos {
                        Some(cp) => {
                            assert(kp != cp);
                        },
                        None => {},
                    }
                    assert(kp != mv.to) by {
                        if at(g, mv.to) is Some {
                            assert(at(g, mv.to)->0.force != piece.force
                                || !(at(g, mv.to) matches Some(q) && q.force == piece.force));
                            if f == force {
                                assert(!(at(g, mv.to) matches Some(q) && q.force == force));
                            } else {
                                if at(g, mv.to)->0.kind == PieceKind::King && at(g, mv.to)->0.force
                                    == f {
                                    assert(cap_pos == Some(mv.to));
                                    assert(false);
                                }
                            }
                        }
                    }
                    assert(at(g2, kp) == at(g, kp));
                }
                assert(king_at(g2, new_kp, f));
                // No other square holds a king of f.
                assert forall|c: Coord| king_at(g2, c, f) implies c == new_kp by {
                    if c == mv.to {
                        assert(at(g2, c) is Some);
                        let q = at(g2, c)->0;
                        if should_promote_spec(force, piece.kind, mv.to) {
                            assert(q.kind != PieceKind::King);
                            assert(false);
                        } else {
                            assert(q == piece);
                            assert(piece.kind == PieceKind::King && piece.force == f);
                            assert(f == force);
                            assert(king_at(g, mv.from, f));
                            assert(king_pos_spec(g, force) == mv.from);
                        }
                    } else {
                        assert(c != mv.from && (cap_pos matches Some(cp) ==> c != cp));
                        assert(at(g2, c) == at(g, c));
                        assert(king_at(g, c, f));
                        assert(c == kp);
                        if piece.kind == PieceKind::King && f == force {
                            assert(king_at(g, mv.from, f));
                            assert(kp == mv.from);
                            assert(false);
                        }
                    }
                }
                assert(one_king(g2, f));
            }
            assert(king_pos_spec(g2, opp) == king_pos_spec(g, opp)) by {
                assert(one_king(g2, opp));
                assert(king_at(g2, king_pos_spec(g, opp), opp));
                assert(king_at(g2, king_pos_spec(g2, opp), opp));
            }
            assert(tagged_rooks_ok(g2)) by {
                assert forall|i: int|
                    0 <= i < 64 implies (#[trigger] g2[i] matches Some(q) ==> (q.rook_castling
                    is Some ==> q.kind == PieceKind::Rook)) by {
                    let c = crate::coord::coord_of_index(i);
                    assert(c.wf() && c.index() == i);
                    if i == mv.to.index() {
                    } else if cap_pos matches Some(cp) && i == cp.index() {
                    } else if i == mv.from.index() {
                    } else {
                        assert(g2[i] == g[i]);
                    }
                }
            }
        },
        Turn::Drop(d) => {
            assert(b.reserve(force).get(PieceKind::King) == 0) by {
                match force {
                    Force::White => {},
                    Force::Black => {},
                }
            }
            assert(d.piece_kind != PieceKind::King);
            assert(at(g, d.to) is None);
            assert forall|f: Force| one_king(g2, f) && king_at(g2, king_pos_spec(g, f), f) by {
                assert(one_king(g, f)) by {
                    match f {
                        Force::White => {},
                        Force::Black => {},
                    }
                }
                let kp = king_pos_spec(g, f);
                assert(king_at(g, kp, f));
                assert(kp != d.to);
                assert(at(g2, kp) == at(g, kp));
                assert(king_at(g2, kp, f));
                assert forall|c: Coord| king_at(g2, c, f) implies c == kp by {
                    if c == d.to {
                        assert(at(g2, c)->0.kind != PieceKind::King);
                        assert(false);
                    } else {
                        assert(at(g2, c) == at(g, c));
                        assert(king_at(g, c, f));
                    }
                }
                assert(one_king(g2, f));
            }
            assert(king_pos_spec(g2, opp) == king_pos_spec(g, opp)) by {
                assert(one_king(g2, opp));
                assert(king_at(g2, king_pos_spec(g, opp), opp));
                assert(king_at(g2, king_pos_spec(g2, opp), opp));
            }
            assert(tagged_rooks_ok(g2)) by {
                assert forall|i: int|
                    0 <= i < 64 implies (#[trigger] g2[i] matches Some(q) ==> (q.rook_castling
                    is Some ==> q.kind == PieceKind::Rook)) by {
                    if i != d.to.index() {
                        assert(g2[i] == g[i]);
                    }
                }
            }
        },
        Turn::Castle(dir) => {
            let row = spec_subjective_row(1, force) as u8;
            let kf = king_col_from(g, row, force, 0)->0;
            let rf = rook_col_from(g, row, force, dir, 0)->0;
            lemma_king_col_found(g, row, force, 0);
            lemma_rook_col_found(g, row, force, dir, 0);
            let king_from = Coord { row, col: kf };
            let rook_from = Coord { row, col: rf };
            let king = at(g, king_from)->0;
            let rook = at(g, rook_from)->0;
            assert(rook.kind == PieceKind::Rook) by {
                assert(g[king_from.index()] == at(g, king_from));
                assert(g[rook_from.index()] matches Some(q) && q.rook_castling is Some);
            }
            assert(king_from != rook_from);
            let kt = Coord { row, col: castle_king_to_col(dir) };
            let rt = Coord { row, col: castle_rook_to_col(dir) };
            assert(kt != rt);
            let g1 = g.update(king_from.index(), None).update(rook_from.index(), None);
            // The emptiness test passed: every square in the closed span is free.
            let lo = crate::moves::imin(
                crate::moves::imin(kf as int, kt.col as int),
                crate::moves::imin(rf as int, rt.col as int),
            );
            let hi = crate::moves::imax(
                crate::moves::imax(kf as int, kt.col as int),
                crate::moves::imax(rf as int, rt.col as int),
            );
            assert(!(exists|c: int|
                lo <= c <= hi && #[trigger] at(g1, Coord { row, col: c as u8 }) is Some));
            assert(at(g1, kt) is None) by {
                assert(lo <= kt.col as int <= hi);
            }
            assert(at(g1, rt) is None) by {
                assert(lo <= rt.col as int <= hi);
            }
            assert forall|f: Force| one_king(g2, f) && king_at(
                g2,
                if f == force {
                    kt
                } else {
                    king_pos_spec(g, f)
                },
                f,
            ) by {
                assert(one_king(g, f)) by {
                    match f {
                        Force::White => {},
                        Force::Black => {},
                    }
                }
                let kp = king_pos_spec(g, f);
                assert(king_at(g, kp, f));
                if f == force {
                    assert(king_at(g, king_from, f));
                    assert(kp == king_from);
                    assert(at(g2, kt) == Some(king)) by {
                        if kt == rt {
                            assert(false);
                        }
                    }
                    assert(king_at(g2, kt, f));
                    assert forall|c: Coord| king_at(g2, c, f) implies c == kt by {
                        if c == rt {
                            assert(at(g2, c) == Some(rook));
                            assert(false);
                        } else if c == kt {
                        } else if c == king_from || c == rook_from {
                            assert(at(g2, c) == at(g1, c));
                            assert(at(g1, c) is None) by {
                                if c == king_from {
                                } else {
                                }
                            }
                            assert(false);
                        } else {
                            assert(at(g2, c) == at(g, c));
                            assert(king_at(g, c, f));
                            assert(c == king_from);
                            assert(false);
                        }
                    }
                    assert(one_king(g2, f));
                } else {
                    assert(kp != king_from);
                    assert(kp != rook_from) by {
                        assert(rook.kind != PieceKind::King);
                    }
                    assert(kp != kt && kp != rt) by {
                        assert(at(g1, kt) is None && at(g1, rt) is None);
                        assert(at(g1, kp) == at(g, kp));
                    }
                    assert(at(g2, kp) == at(g, kp));
                    assert(king_at(g2, kp, f));
                    assert forall|c: Coord| king_at(g2, c, f) implies c == kp by {
                        if c == kt {
                            assert(at(g2, c) == Some(king) || at(g2, c) == Some(rook)) by {
                                if kt == rt {
                                }
                            }
                            assert(king.force != f || king.kind != PieceKind::King || c != kt
                                || at(g2, c) != Some(king)) by {
                                assert(king.force == force);
                            }
                            assert(false);
                        } else if c == rt {
                            assert(at(g2, c) == Some(rook));
                            assert(false);
                        } else if c == king_from || c == rook_from {
                            assert(at(g2, c) == at(g1, c) && at(g1, c) is None);
                            assert(false);
                        } else {
                            assert(at(g2, c) == at(g, c));
                            assert(king_at(g, c, f));
                        }
                    }
                    assert(one_king(g2, f));
                }
            }
            assert(king_pos_spec(g2, opp) == king_pos_spec(g, opp)) by {
                assert(one_king(g2, opp));
                assert(king_at(g2, king_pos_spec(g, opp), opp));
                assert(king_at(g2, king_pos_spec(g2, opp), opp));
            }
            assert(tagged_rooks_ok(g2)) by {
                assert forall|i: int|
                    0 <= i < 64 implies (#[trigger] g2[i] matches Some(q) ==> (q.rook_castling
                    is Some ==> q.kind == PieceKind::Rook)) by {
                    let c = crate::coord::coord_of_index(i);
                    if i == rt.index() {
                        assert(g2[i] == Some(rook));
                    } else if i == kt.index() {
                        assert(g2[i] == Some(king));
                        assert(g[king_from.index()] matches Some(q) ==> (q.rook_castling
                            is Some ==> q.kind == PieceKind::Rook));
                    } else if i == king_from.index() || i == rook_from.index() {
                        assert(g2[i] is None);
                    } else {
                        assert(g2[i] == g[i]);
                    }
                }
            }
        },
    }
}

} // verus!

// The central turn application.
verus! {

/// The error that rejects a turn after its outcome grid is built, if any:
/// the mover may not leave their own king in check, and a drop may not be
/// more aggressive towards the opponent king than the rules allow.
pub open spec fn post_outcome_error(b: Board, turn: Turn, g2: GridView) -> Option<TurnError> {
    let force = b.active_force;
    if check_spec(g2, king_pos_spec(g2, force)) {
        Some(TurnError::UnprotectedKing)
    } else {
        match turn {
            Turn::Drop(_) => {
                match b.bughouse_rules {
                    None => Some(TurnError::DropForbidden),
                    Some(br) => {
                        let okp = king_pos_spec(g2, force.opponent());
                        let illegal = match br.drop_aggression {
                            DropAggression::NoCheck => check_spec(g2, okp),
                            DropAggression::NoChessMate => chess_mate_spec(g2, okp, b.last_turn),
                            DropAggression::NoBughouseMate => bughouse_mate_spec(
                                g2,
                                okp,
                                b.last_turn,
                            ),
                            DropAggression::MateAllowed => false,
                        };
                        if illegal {
                            Some(TurnError::DropAggression)
                        } else {
                            None
                        }
                    },
                }
            },
            _ => None,
        }
    }
}

/// What a `try_turn` call returns, for every board and turn.
pub open spec fn try_turn_result(b: Board, turn: Turn) -> Result<Option<Capture>, TurnError> {
    if b.status != ChessGameStatus::Active {
        Err(TurnError::GameOver)
    } else {
        match turn_outcome(b, turn) {
            Err(e) => Err(e),
            Ok(p) => match post_outcome_error(b, turn, p.0) {
                Some(e) => Err(e),
                None => Ok(p.1),
            },
        }
    }
}

/// Castle rights after a successful turn: moving the king clears both
/// sides, moving a tagged rook clears its side, castling clears both;
/// nothing else changes them.
pub open spec fn next_rights_f(b: Board, force: Force, turn: Turn, f: Force) -> CastleRights {
    if f != force {
        b.rights(f)
    } else {
        match turn {
            Turn::Move(mv) => {
                let piece = at(b.grid@, mv.from)->0;
                if piece.kind == PieceKind::King {
                    CastleRights { a_side: false, h_side: false }
                } else {
                    match piece.rook_castling {
                        Some(CastleDirection::ASide) => CastleRights {
                            a_side: false,
                            h_side: b.rights(f).h_side,
                        },
                        Some(CastleDirection::HSide) => CastleRights {
                            a_side: b.rights(f).a_side,
                            h_side: false,
                        },
                        None => b.rights(f),
                    }
                }
            },
            Turn::Drop(_) => b.rights(f),
            Turn::Castle(_) => CastleRights { a_side: false, h_side: false },
        }
    }
}

/// Castle rights after a successful turn of the active force.
pub open spec fn next_rights(b: Board, turn: Turn, f: Force) -> CastleRights {
    next_rights_f(b, b.active_force, turn, f)
}

/// Status after a successful turn: mate against the opponent king ends the
/// game (bughouse mate on bughouse boards, chess mate otherwise).
pub open spec fn next_status(b: Board, turn: Turn, g2: GridView) -> ChessGameStatus {
    let force = b.active_force;
    let okp = king_pos_spec(g2, force.opponent());
    let mate = if b.bughouse_rules is Some {
        bughouse_mate_spec(g2, okp, Some(turn))
    } else {
        chess_mate_spec(g2, okp, Some(turn))
    };
    if mate {
        ChessGameStatus::Victory(force, VictoryReason::Checkmate)
    } else {
        ChessGameStatus::Active
    }
}

/// Reserves after a successful turn: a drop consumes one piece of its kind
/// from the active force's reserve.
pub open spec fn next_reserve_f(b: Board, force: Force, turn: Turn, f: Force) -> Reserve {
    match turn {
        Turn::Drop(d) => if f == force {
            b.reserve(f).spec_set(d.piece_kind, (b.reserve(f).get(d.piece_kind) - 1) as u8)
        } else {
            b.reserve(f)
        },
        _ => b.reserve(f),
    }
}

/// Reserves after a successful turn of the active force.
pub open spec fn next_reserve(b: Board, turn: Turn, f: Force) -> Reserve {
    next_reserve_f(b, b.active_force, turn, f)
}

impl Board {
    /// The central operation: checks one turn of the active force and, when
    /// it is legal, commits it — grid, castle rights, reserve, last turn,
    /// status, clock and active force all updated. On failure the board is
    /// unchanged and the error says exactly why the turn was rejected.
    pub fn try_turn(&mut self, turn: &Turn, now: GameInstant) -> (r: Result<
        Option<Capture>,
        TurnError,
    >)
        requires
            old(self).wf(),
            turn.wf(),
        ensures
            final(self).wf(),
            r == try_turn_result(*old(self), *turn),
            r is Err ==> *final(self) == *old(self),
            r is Ok ==> ({
                let g2 = turn_outcome(*old(self), *turn)->Ok_0.0;
                &&& final(self).grid@ == g2
                &&& final(self).active_force == old(self).active_force.opponent()
                &&& final(self).last_turn == Some(*turn)
                &&& final(self).status == next_status(*old(self), *turn, g2)
                &&& forall|f: Force| final(self).rights(f) == next_rights(*old(self), *turn, f)
                &&& forall|f: Force| final(self).reserve(f) == next_reserve(*old(self), *turn, f)
                &&& final(self).clock.spec_turn_state() == Some(
                    crate::clock::ClockTurnState {
                        force: old(self).active_force.opponent(),
                        since: now,
                    },
                )
                &&& final(self).chess_rules == old(self).chess_rules
                &&& final(self).bughouse_rules == old(self).bughouse_rules
                &&& (r->Ok_0 matches Some(cap) ==> cap.piece_kind != PieceKind::King && cap.force
                    == old(self).active_force.opponent())
            }),
    {
        if self.status != ChessGameStatus::Active {
            return Err(TurnError::GameOver);
        }
        let force = self.active_force;
        let (new_grid, capture) = match self.try_turn_no_check_test(force, turn) {
            Ok(p) => p,
            Err(e) => {
                return Err(e);
            },
        };
        proof {
            lemma_safe_capture(*self, *turn);
            lemma_outcome_kings_f(*self, self.active_force, *turn);
        }
        let king_pos = find_king(&new_grid, force);
        let opponent_king_pos = find_king(&new_grid, force.opponent());
        if is_check_to(&new_grid, king_pos) {
            return Err(TurnError::UnprotectedKing);
        }
        if let Turn::Drop(_) = turn {
            let bughouse_rules = match &self.bughouse_rules {
                Some(br) => br,
                None => {
                    return Err(TurnError::DropForbidden);
                },
            };
            let drop_legal = match bughouse_rules.drop_aggression {
                DropAggression::NoCheck => !is_check_to(&new_grid, opponent_king_pos),
                DropAggression::NoChessMate => !is_chess_mate_to(
                    &new_grid,
                    opponent_king_pos,
                    &self.last_turn,
                ),
                DropAggression::NoBughouseMate => !is_bughouse_mate_to(
                    &new_grid,
                    opponent_king_pos,
                    &self.last_turn,
                ),
                DropAggression::MateAllowed => true,
            };
            if !drop_legal {
                return Err(TurnError::DropAggression);
            }
        }
        match turn {
            Turn::Move(mv) => {
                let piece = self.grid.get(mv.from).unwrap();
                if piece.kind == PieceKind::King {
                    match force {
                        Force::White => self.castle_rights_white = CastleRights::neither(),
                        Force::Black => self.castle_rights_black = CastleRights::neither(),
                    }
                } else {
                    match piece.rook_castling {
                        Some(CastleDirection::ASide) => {
                            match force {
                                Force::White => self.castle_rights_white.a_side = false,
                                Force::Black => self.castle_rights_black.a_side = false,
                            }
                        },
                        Some(CastleDirection::HSide) => {
                            match force {
                                Force::White => self.castle_rights_white.h_side = false,
                                Force::Black => self.castle_rights_black.h_side = false,
                            }
                        },
                        None => {},
                    }
                }
            },
            Turn::Drop(drop) => {
                proof {
                    assert(self.reserve(force).get(drop.piece_kind) >= 1);
                }
                let reserve = match force {
                    Force::White => &mut self.reserve_white,
                    Force::Black => &mut self.reserve_black,
                };
                let count = reserve.count(drop.piece_kind);
                reserve.set_count(drop.piece_kind, count - 1);
            },
            Turn::Castle(_) => {
                match force {
                    Force::White => self.castle_rights_white = CastleRights::neither(),
                    Force::Black => self.castle_rights_black = CastleRights::neither(),
                }
            },
        }
        self.grid = new_grid;
        self.last_turn = Some(*turn);
        let mate = if self.bughouse_rules.is_some() {
            is_bughouse_mate_to(&self.grid, opponent_king_pos, &self.last_turn)
        } else {
            is_chess_mate_to(&self.grid, opponent_king_pos, &self.last_turn)
        };
        if mate {
            self.status = ChessGameStatus::Victory(force, VictoryReason::Checkmate);
        }
        self.active_force = force.opponent();
        self.clock.new_turn(force.opponent(), now);
        proof {
            assert forall|f: Force| self.rights(f) == next_rights(*old(self), *turn, f) by {
                match f {
                    Force::White => {},
                    Force::Black => {},
                }
            }
            assert forall|f: Force| self.reserve(f) == next_reserve(*old(self), *turn, f) by {
                match f {
                    Force::White => {},
                    Force::Black => {},
                }
            }
            assert(self.reserve_white.king == 0 && self.reserve_black.king == 0) by {
                match *turn {
                    Turn::Drop(d) => {
                        assert(old(self).reserve(force).get(d.piece_kind) >= 1);
                        assert(old(self).reserve(force).get(PieceKind::King) == 0) by {
                            match force {
                                Force::White => {},
                                Force::Black => {},
                            }
                        }
                        assert(d.piece_kind != PieceKind::King);
                        assert(self.reserve(force).get(PieceKind::King) == 0) by {
                            match force {
                                Force::White => {},
                                Force::Black => {},
                            }
                        }
                        assert(self.reserve(Force::White).get(PieceKind::King) == 0
                            && self.reserve(Force::Black).get(PieceKind::King) == 0) by {
                            match force {
                                Force::White => {},
                                Force::Black => {},
                            }
                        }
                    },
                    _ => {},
                }
            }
        }
        Ok(capture)
    }
}

} // verus!

// Speculative application of a pre-turn.
verus! {

/// What an `apply_preturn` call returns. A pre-turn is a speculative
/// out-of-order turn by the force that is not to move: turn order, king
/// safety, drop aggression and mate detection are not enforced — the
/// position will change again before the turn could be confirmed — but a
/// pre-turn may never capture a king or a piece of its own force (neither
/// could ever become legal).
pub open spec fn preturn_result(b: Board, turn: Turn) -> Result<Option<Capture>, TurnError> {
    if b.status != ChessGameStatus::Active {
        Err(TurnError::GameOver)
    } else {
        match turn_outcome_f(b, b.active_force.opponent(), turn) {
            Err(e) => Err(e),
            Ok(p) => match p.1 {
                Some(cap) => if cap.piece_kind == PieceKind::King || cap.force != b.active_force {
                    Err(TurnError::Unreachable)
                } else {
                    Ok(p.1)
                },
                None => Ok(None),
            },
        }
    }
}

impl Board {
    /// Applies a pre-turn: a turn by the force that is not to move,
    /// committed speculatively without flipping the active force, touching
    /// the clock or detecting mate.
    pub fn apply_preturn(&mut self, turn: &Turn) -> (r: Result<Option<Capture>, TurnError>)
        requires
            old(self).wf_core(),
            turn.wf(),
        ensures
            final(self).wf_core(),
            r == preturn_result(*old(self), *turn),
            r is Err ==> *final(self) == *old(self),
            r is Ok ==> ({
                let mover = old(self).active_force.opponent();
                let g2 = turn_outcome_f(*old(self), mover, *turn)->Ok_0.0;
                &&& final(self).grid@ == g2
                &&& final(self).active_force == old(self).active_force
                &&& final(self).status == old(self).status
                &&& final(self).last_turn == Some(*turn)
                &&& final(self).clock == old(self).clock
                &&& final(self).chess_rules == old(self).chess_rules
                &&& final(self).bughouse_rules == old(self).bughouse_rules
                &&& forall|f: Force|
                    final(self).rights(f) == next_rights_f(*old(self), mover, *turn, f)
                &&& forall|f: Force|
                    final(self).reserve(f) == next_reserve_f(*old(self), mover, *turn, f)
            }),
    {
        if self.status != ChessGameStatus::Active {
            return Err(TurnError::GameOver);
        }
        let mover = self.active_force.opponent();
        let (new_grid, capture) = match self.try_turn_no_check_test(mover, turn) {
            Ok(p) => p,
            Err(e) => {
                return Err(e);
            },
        };
        if let Some(cap) = capture {
            if cap.piece_kind == PieceKind::King || cap.force != self.active_force {
                return Err(TurnError::Unreachable);
            }
        }
        proof {
            lemma_outcome_kings_f(*self, mover, *turn);
        }
        match turn {
            Turn::Move(mv) => {
                let piece = self.grid.get(mv.from).unwrap();
                if piece.kind == PieceKind::King {
                    match mover {
                        Force::White => self.castle_rights_white = CastleRights::neither(),
                        Force::Black => self.castle_rights_black = CastleRights::neither(),
                    }
                } else {
                    match piece.rook_castling {
                        Some(CastleDirection::ASide) => {
                            match mover {
                                Force::White => self.castle_rights_white.a_side = false,
                                Force::Black => self.castle_rights_black.a_side = false,
                            }
                        },
                        Some(CastleDirection::HSide) => {
                            match mover {
                                Force::White => self.castle_rights_white.h_side = false,
                                Force::Black => self.castle_rights_black.h_side = false,
                            }
                        },
                        None => {},
                    }
                }
            },
            Turn::Drop(drop) => {
                proof {
                    assert(self.reserve(mover).get(drop.piece_kind) >= 1);
                }
                let reserve = match mover {
                    Force::White => &mut self.reserve_white,
                    Force::Black => &mut self.reserve_black,
                };
                let count = reserve.count(drop.piece_kind);
                reserve.set_count(drop.piece_kind, count - 1);
            },
            Turn::Castle(_) => {
                match mover {
                    Force::White => self.castle_rights_white = CastleRights::neither(),
                    Force::Black => self.castle_rights_black = CastleRights::neither(),
                }
            },
        }
        self.grid = new_grid;
        self.last_turn = Some(*turn);
        proof {
            assert forall|f: Force| self.rights(f) == next_rights_f(*old(self), mover, *turn, f) by {
                match f {
                    Force::White => {},
                    Force::Black => {},
                }
            }
            assert forall|f: Force|
                self.reserve(f) == next_reserve_f(*old(self), mover, *turn, f) by {
                match f {
                    Force::White => {},
                    Force::Black => {},
                }
            }
            assert(self.reserve_white.king == 0 && self.reserve_black.king == 0) by {
                match *turn {
                    Turn::Drop(d) => {
                        assert(old(self).reserve(mover).get(d.piece_kind) >= 1);
                        assert(old(self).reserve(mover).get(PieceKind::King) == 0) by {
                            match mover {
                                Force::White => {},
                                Force::Black => {},
                            }
                        }
                        assert(d.piece_kind != PieceKind::King);
                        assert(self.reserve(Force::White).get(PieceKind::King) == 0
                            && self.reserve(Force::Black).get(PieceKind::King) == 0) by {
                            match mover {
                                Force::White => {},
                                Force::Black => {},
                            }
                        }
                    },
                    _ => {},
                }
            }
        }
        Ok(capture)
    }
}

} // verus!

verus! {

impl Board {
    /// An independent copy of the board.
    pub fn duplicate(&self) -> (r: Board)
        requires
            self.grid.wf(),
        ensures
            r.grid@ == self.grid@,
            r.chess_rules == self.chess_rules,
            r.bughouse_rules == self.bughouse_rules,
            r.status == self.status,
            r.castle_rights_white == self.castle_rights_white,
            r.castle_rights_black == self.castle_rights_black,
            r.reserve_white == self.reserve_white,
            r.reserve_black == self.reserve_black,
            r.last_turn == self.last_turn,
            r.active_force == self.active_force,
            r.clock == self.clock,
            self.wf() ==> r.wf(),
            self.wf_core() ==> r.wf_core(),
    {
        Board {
            chess_rules: self.chess_rules,
            bughouse_rules: self.bughouse_rules,
            status: self.status,
            grid: self.grid.duplicate(),
            castle_rights_white: self.castle_rights_white,
            castle_rights_black: self.castle_rights_black,
            reserve_white: self.reserve_white,
            reserve_black: self.reserve_black,
            last_turn: self.last_turn,
            active_force: self.active_force,
            clock: self.clock,
        }
    }
}

} // verus!

// Standing properties of turn application.
verus! {

/// Castle rights only ever shrink: whatever a turn by whatever force does,
/// a right that is absent before the turn is absent after it.
pub proof fn lemma_castle_rights_monotone(b: Board, force: Force, turn: Turn, f: Force)
    ensures
        next_rights_f(b, force, turn, f).leq(b.rights(f)),
{
}

/// A promotion is well-formed: the promoted piece occupies the destination
/// with origin `Promoted` and a kind a pawn may promote to, and the source
/// square is empty.
pub proof fn lemma_promotion_well_formed(b: Board, force: Force, mv: TurnMove)
    requires
        b.grid.wf(),
        b.last_turn matches Some(t) ==> t.wf(),
        mv.from.wf(),
        mv.to.wf(),
        turn_outcome_f(b, force, Turn::Move(mv)) is Ok,
        mv.promote_to is Some,
    ensures
        ({
            let g2 = turn_outcome_f(b, force, Turn::Move(mv))->Ok_0.0;
            &&& at(g2, mv.to) == Some(promoted_piece(mv.promote_to->0, force))
            &&& promoted_piece(mv.promote_to->0, force).origin == PieceOrigin::Promoted
            &&& can_promote_to_spec(mv.promote_to->0)
            &&& at(g2, mv.from) is None
        }),
{
    broadcast use lemma_coord_index_bijective;

    let cap_pos = capture_spec(b.grid@, mv.from, mv.to, b.last_turn);
    assert(reachable_spec(b.grid@, mv.from, mv.to, cap_pos is Some));
    assert(mv.to != mv.from);
    assert(mv.to.index() != mv.from.index()) by {
        if mv.to.index() == mv.from.index() {
            assert(crate::coord::coord_of_index(mv.to.index()) == mv.to);
            assert(crate::coord::coord_of_index(mv.from.index()) == mv.from);
        }
    }
    assert(should_promote_spec(force, at(b.grid@, mv.from)->0.kind, mv.to));
    assert(can_promote_to_spec(mv.promote_to->0));
    let g = b.grid@;
    let piece = at(g, mv.from)->0;
    let capture = match cap_pos {
        Some(cp) => Some(
            Capture {
                piece_kind: at(g, cp)->0.kind,
                origin: at(g, cp)->0.origin,
                force: at(g, cp)->0.force,
            },
        ),
        None => None::<Capture>,
    };
    let g1 = g.update(mv.from.index(), None);
    let gx = match cap_pos {
        Some(cp) => g1.update(cp.index(), None),
        None => g1,
    };
    let g2 = gx.update(mv.to.index(), Some(promoted_piece(mv.promote_to->0, force)));
    assert(move_outcome(g, force, b.last_turn, mv) == Ok::<(GridView, Option<Capture>), TurnError>(
        (g2, capture),
    ));
    assert(g.len() == 64);
    assert(0 <= mv.to.index() < 64 && 0 <= mv.from.index() < 64);
    assert(g2.len() == 64);
    assert(g2[mv.to.index()] == Some(promoted_piece(mv.promote_to->0, force)));
    assert(g2[mv.from.index()] is None);
}

} // verus!
