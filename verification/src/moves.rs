use vstd::prelude::*;

use crate::coord::{coord_of_index, spec_subjective_row, subjective_row_to_row, Coord};
use crate::force::Force;
use crate::grid::{at, grid_view_wf, Grid, GridView};
use crate::piece::{PieceKind, PieceOnBoard};
use crate::turn::{Turn, TurnMove};

verus! {

pub open spec fn iabs(x: int) -> int {
    if x >= 0 {
        x
    } else {
        -x
    }
}

pub open spec fn isgn(x: int) -> int {
    if x > 0 {
        1
    } else if x < 0 {
        -1
    } else {
        0
    }
}

pub open spec fn imin(a: int, b: int) -> int {
    if a <= b {
        a
    } else {
        b
    }
}

pub open spec fn imax(a: int, b: int) -> int {
    if a >= b {
        a
    } else {
        b
    }
}

/// Direction in which a force's pawns advance (+1 for White, -1 for Black).
pub open spec fn dir_forward(force: Force) -> int {
    match force {
        Force::White => 1,
        Force::Black => -1,
    }
}

pub fn direction_forward(force: Force) -> (r: i8)
    ensures
        r == dir_forward(force),
{
    match force {
        Force::White => 1,
        Force::Black => -1,
    }
}

pub open spec fn d_row(from: Coord, to: Coord) -> int {
    to.row - from.row
}

pub open spec fn d_col(from: Coord, to: Coord) -> int {
    to.col - from.col
}

/// The square `k` steps from `from` along direction `(sr, sc)`.
pub open spec fn ray_square(from: Coord, sr: int, sc: int, k: int) -> Coord {
    Coord { row: (from.row + k * sr) as u8, col: (from.col + k * sc) as u8 }
}

/// All squares strictly between `from` and `to` are empty (`from` and `to`
/// assumed aligned on a rank, file or diagonal).
pub open spec fn path_clear(g: GridView, from: Coord, to: Coord) -> bool {
    let n = imax(iabs(d_row(from, to)), iabs(d_col(from, to)));
    forall|k: int|
        1 <= k < n ==> at(
            g,
            ray_square(from, isgn(d_row(from, to)), isgn(d_col(from, to)), k),
        ) is None
}

/// Whether the piece at `from` could move to `to` under plain chess movement
/// with the given capture intent. Blockers are checked on sliding rays.
/// Castling is not covered. A pawn's two-square advance is allowed exactly
/// from the subjective second rank.
pub open spec fn reachable_spec(g: GridView, from: Coord, to: Coord, capturing: bool) -> bool {
    &&& to != from
    &&& at(g, from) is Some
    &&& {
        let piece = at(g, from)->0;
        let force = piece.force;
        let dr = d_row(from, to);
        let dc = d_col(from, to);
        &&& !(at(g, to) matches Some(q) && q.force == force)
        &&& match piece.kind {
            PieceKind::Pawn => {
                let dir = dir_forward(force);
                if capturing {
                    iabs(dc) == 1 && dr == dir
                } else {
                    dc == 0 && (dr == dir || (from.row == spec_subjective_row(2, force) && dr == 2
                        * dir))
                }
            },
            PieceKind::Knight => (iabs(dr) == 1 && iabs(dc) == 2) || (iabs(dr) == 2 && iabs(dc)
                == 1),
            PieceKind::Bishop | PieceKind::Rook | PieceKind::Queen => {
                let straight = dr == 0 || dc == 0;
                let diagonal = iabs(dr) == iabs(dc);
                &&& ((straight && piece.kind != PieceKind::Bishop) || (diagonal && piece.kind
                    != PieceKind::Rook))
                &&& path_clear(g, from, to)
            },
            PieceKind::King => iabs(dr) <= 1 && iabs(dc) <= 1,
        }
    }
}

/// Tests that the piece at `from` can move to `to` in such a way and that
/// the path is free. Does not cover castling.
#[verifier::loop_isolation(false)]
pub fn is_reachable(grid: &Grid, from: Coord, to: Coord, capturing: bool) -> (r: bool)
    requires
        grid.wf(),
        from.wf(),
        to.wf(),
    ensures
        r == reachable_spec(grid@, from, to, capturing),
{
    if to == from {
        return false;
    }
    let piece = match grid.get(from) {
        Some(piece) => piece,
        None => {
            return false;
        },
    };
    let force = piece.force;
    if let Some(target) = grid.get(to) {
        if target.force == force {
            return false;
        }
    }
    let dr: i16 = to.row as i16 - from.row as i16;
    let dc: i16 = to.col as i16 - from.col as i16;
    let ar: i16 = if dr >= 0 {
        dr
    } else {
        -dr
    };
    let ac: i16 = if dc >= 0 {
        dc
    } else {
        -dc
    };
    match piece.kind {
        PieceKind::Pawn => {
            let dir = direction_forward(force) as i16;
            if capturing {
                ac == 1 && dr == dir
            } else {
                let second_row = subjective_row_to_row(2, force);
                dc == 0 && (dr == dir || (from.row == second_row && dr == 2 * dir))
            }
        },
        PieceKind::Knight => (ar == 1 && ac == 2) || (ar == 2 && ac == 1),
        PieceKind::Bishop | PieceKind::Rook | PieceKind::Queen => {
            let is_straight = dr == 0 || dc == 0;
            let is_diagonal = ar == ac;
            if (is_straight && piece.kind != PieceKind::Bishop) || (is_diagonal && piece.kind
                != PieceKind::Rook) {
                let sr: i16 = if dr > 0 {
                    1
                } else if dr < 0 {
                    -1
                } else {
                    0
                };
                let sc: i16 = if dc > 0 {
                    1
                } else if dc < 0 {
                    -1
                } else {
                    0
                };
                let n: i16 = if ar >= ac {
                    ar
                } else {
                    ac
                };
                assert(dr == n * sr && dc == n * sc);
                let mut k: i16 = 1;
                while k < n
                    invariant
                        1 <= k <= n,
                        forall|j: int| 1 <= j < k ==> at(grid@, ray_square(from, sr as int, sc as int, j)) is None,
                    decreases n - k,
                {
                    let step_r: i16 = if sr > 0 {
                        k
                    } else if sr < 0 {
                        -k
                    } else {
                        0
                    };
                    let step_c: i16 = if sc > 0 {
                        k
                    } else if sc < 0 {
                        -k
                    } else {
                        0
                    };
                    proof {
                        if sr == 1 {
                            assert(k * sr == k) by (nonlinear_arith)
                                requires
                                    sr == 1,
                            ;
                        } else if sr == -1 {
                            assert(k * sr == -k) by (nonlinear_arith)
                                requires
                                    sr == -1,
                                    -32768 < k,
                            ;
                        } else {
                            assert(k * sr == 0) by (nonlinear_arith)
                                requires
                                    sr == 0,
                            ;
                        }
                        if sc == 1 {
                            assert(k * sc == k) by (nonlinear_arith)
                                requires
                                    sc == 1,
                            ;
                        } else if sc == -1 {
                            assert(k * sc == -k) by (nonlinear_arith)
                                requires
                                    sc == -1,
                                    -32768 < k,
                            ;
                        } else {
                            assert(k * sc == 0) by (nonlinear_arith)
                                requires
                                    sc == 0,
                            ;
                        }
                    }
                    assert(step_r == k * sr && step_c == k * sc);
                    let rr_i: i16 = from.row as i16 + step_r;
                    let cc_i: i16 = from.col as i16 + step_c;
                    assert(0 <= rr_i < 8 && 0 <= cc_i < 8) by {
                        assert(from.row + n * sr == to.row);
                        assert(from.col + n * sc == to.col);
                    }
                    let pos = Coord { row: rr_i as u8, col: cc_i as u8 };
                    assert(pos == ray_square(from, sr as int, sc as int, k as int));
                    if grid.get(pos).is_some() {
                        assert(!path_clear(grid@, from, to)) by {
                            assert(at(
                                grid@,
                                ray_square(
                                    from,
                                    isgn(d_row(from, to)),
                                    isgn(d_col(from, to)),
                                    k as int,
                                ),
                            ) is Some);
                        }
                        return false;
                    }
                    k = k + 1;
                }
                assert(path_clear(grid@, from, to));
                true
            } else {
                false
            }
        },
        PieceKind::King => ar <= 1 && ac <= 1,
    }
}

/// Where a move from `from` to `to` would capture, if anywhere: the
/// destination when it holds an enemy piece, or the square of a pawn that has
/// just advanced two squares (en passant), or nowhere.
pub open spec fn capture_spec(g: GridView, from: Coord, to: Coord, last: Option<Turn>) -> Option<
    Coord,
> {
    let piece = at(g, from)->0;
    if at(g, to) is Some {
        if at(g, to)->0.force == piece.force {
            None
        } else {
            Some(to)
        }
    } else if piece.kind == PieceKind::Pawn {
        match last {
            Some(Turn::Move(lm)) => {
                if (at(g, lm.to) matches Some(lp) && lp.kind == PieceKind::Pawn) && lm.to.col
                    == to.col && lm.from.row - to.row == to.row - lm.to.row {
                    Some(lm.to)
                } else {
                    None
                }
            },
            _ => None,
        }
    } else {
        None
    }
}

pub fn get_capture(grid: &Grid, from: Coord, to: Coord, last: &Option<Turn>) -> (r: Option<Coord>)
    requires
        grid.wf(),
        from.wf(),
        to.wf(),
        at(grid@, from) is Some,
        last matches Some(t) ==> t.wf(),
    ensures
        r == capture_spec(grid@, from, to, *last),
{
    let piece = grid.get(from).unwrap();
    if let Some(target) = grid.get(to) {
        if target.force == piece.force {
            None
        } else {
            Some(to)
        }
    } else if piece.kind == PieceKind::Pawn {
        if let Some(Turn::Move(lm)) = last {
            match grid.get(lm.to) {
                Some(lp) => {
                    if lp.kind == PieceKind::Pawn && lm.to.col == to.col && lm.from.row as i16
                        - to.row as i16 == to.row as i16 - lm.to.row as i16 {
                        Some(lm.to)
                    } else {
                        None
                    }
                },
                None => None,
            }
        } else {
            None
        }
    } else {
        None
    }
}

/// A king of the given force stands on `c`.
pub open spec fn king_at(g: GridView, c: Coord, force: Force) -> bool {
    c.wf() && (at(g, c) matches Some(p) && p.kind == PieceKind::King && p.force == force)
}

/// The grid holds exactly one king of the force.
pub open spec fn one_king(g: GridView, force: Force) -> bool {
    &&& exists|c: Coord| king_at(g, c, force)
    &&& forall|c1: Coord, c2: Coord| king_at(g, c1, force) && king_at(g, c2, force) ==> c1 == c2
}

/// The position of the king of a force (meaningful when `one_king` holds).
pub open spec fn king_pos_spec(g: GridView, force: Force) -> Coord {
    choose|c: Coord| king_at(g, c, force)
}

pub fn find_king(grid: &Grid, force: Force) -> (r: Coord)
    requires
        grid.wf(),
        exists|c: Coord| king_at(grid@, c, force),
    ensures
        king_at(grid@, r, force),
        one_king(grid@, force) ==> r == king_pos_spec(grid@, force),
{
    let mut i: usize = 0;
    while i < 64
        invariant
            grid.wf(),
            exists|c: Coord| king_at(grid@, c, force),
            i <= 64,
            forall|c: Coord| c.wf() && c.index() < i ==> !king_at(grid@, c, force),
        decreases 64 - i,
    {
        let pos = Coord::from_index(i);
        if let Some(piece) = grid.get(pos) {
            if piece.kind == PieceKind::King && piece.force == force {
                assert(king_at(grid@, pos, force));
                return pos;
            }
        }
        assert(forall|c: Coord| c.wf() && c.index() == i ==> c == pos);
        i = i + 1;
    }
    proof {
        let c = choose|c: Coord| king_at(grid@, c, force);
        assert(c.wf() && c.index() < 64);
        assert(false);
    }
    unreached()
}

pub fn king_force(grid: &Grid, king_pos: Coord) -> (r: Force)
    requires
        grid.wf(),
        king_pos.wf(),
        at(grid@, king_pos) is Some,
    ensures
        r == at(grid@, king_pos)->0.force,
{
    grid.get(king_pos).unwrap().force
}

/// An enemy piece at row-major index `i` attacks the king on `king_pos`.
pub open spec fn attacks_king(g: GridView, i: int, king_pos: Coord) -> bool {
    &&& 0 <= i < 64
    &&& at(g, coord_of_index(i)) matches Some(p) && p.force != at(g, king_pos)->0.force
    &&& reachable_spec(g, coord_of_index(i), king_pos, true)
}

/// The king on `king_pos` is in check.
pub open spec fn check_spec(g: GridView, king_pos: Coord) -> bool {
    exists|i: int| attacks_king(g, i, king_pos)
}

#[verifier::loop_isolation(false)]
pub fn is_check_to(grid: &Grid, king_pos: Coord) -> (r: bool)
    requires
        grid.wf(),
        king_pos.wf(),
        at(grid@, king_pos) matches Some(p) && p.kind == PieceKind::King,
    ensures
        r == check_spec(grid@, king_pos),
{
    let force = king_force(grid, king_pos);
    let mut i: usize = 0;
    while i < 64
        invariant
            grid.wf(),
            king_pos.wf(),
            force == at(grid@, king_pos)->0.force,
            i <= 64,
            forall|j: int| 0 <= j < i ==> !attacks_king(grid@, j, king_pos),
        decreases 64 - i,
    {
        let from = Coord::from_index(i);
        assert(from == coord_of_index(i as int));
        if let Some(piece) = grid.get(from) {
            if piece.force != force && is_reachable(grid, from, king_pos, true) {
                assert(attacks_king(grid@, i as int, king_pos));
                return true;
            }
        }
        i = i + 1;
    }
    false
}

} // verus!

// Mate detection. The escape search speculatively applies candidate moves to
// a copy of the grid and re-tests check.
verus! {

/// The grid after speculatively applying the move `from -> to`, with the
/// captured square (possibly distinct from `to`, for en passant) cleared
/// first.
pub open spec fn mate_test_grid(g: GridView, from: Coord, to: Coord, cap: Option<Coord>) -> GridView {
    let g1 = if cap is Some {
        g.update(cap->0.index(), None)
    } else {
        g
    };
    g1.update(from.index(), None).update(to.index(), at(g, from))
}

/// A non-castling, non-promoting move by the mated side that leaves its king
/// out of check. Promotion is irrelevant for the existence of an escape, and
/// castling is impossible while checked.
pub open spec fn escapes(
    g: GridView,
    king_pos: Coord,
    last: Option<Turn>,
    from: Coord,
    to: Coord,
) -> bool {
    let force = at(g, king_pos)->0.force;
    let cap = capture_spec(g, from, to, last);
    let piece = at(g, from)->0;
    let new_king_pos = if piece.kind == PieceKind::King {
        to
    } else {
        king_pos
    };
    &&& from.wf() && to.wf()
    &&& at(g, from) is Some
    &&& piece.force == force
    &&& reachable_spec(g, from, to, cap is Some)
    &&& !check_spec(mate_test_grid(g, from, to, cap), new_king_pos)
}

/// The king on `king_pos` is checkmated under plain chess rules.
pub open spec fn chess_mate_spec(g: GridView, king_pos: Coord, last: Option<Turn>) -> bool {
    &&& check_spec(g, king_pos)
    &&& forall|from: Coord, to: Coord| !escapes(g, king_pos, last, from, to)
}

/// The defending queen used by the bughouse mate test.
pub open spec fn defending_queen(force: Force) -> PieceOnBoard {
    PieceOnBoard {
        kind: PieceKind::Queen,
        origin: crate::piece::PieceOrigin::Dropped,
        rook_castling: None,
        force,
    }
}

/// The king on `king_pos` is checkmated even considering defensive drops: a
/// speculative defending queen on every square other than the king's own
/// fails to stop the check.
pub open spec fn bughouse_mate_spec(g: GridView, king_pos: Coord, last: Option<Turn>) -> bool {
    let force = at(g, king_pos)->0.force;
    &&& chess_mate_spec(g, king_pos, last)
    &&& forall|i: int|
        0 <= i < 64 && i != king_pos.index() ==> check_spec(
            #[trigger] g.update(i, Some(defending_queen(force))),
            king_pos,
        )
}

/// Generates the candidate squares to test whether a player can escape a
/// mate via normal chess moves. Castling is not generated (it cannot be done
/// while checked), pawns are not promoted and drops are not generated (the
/// latter is done separately for the bughouse mate test).
#[verifier::loop_isolation(false)]
pub fn generate_moves_for_mate_test(grid: &Grid, from: Coord, last: &Option<Turn>) -> (moves: Vec<
    TurnMove,
>)
    requires
        grid.wf(),
        from.wf(),
        at(grid@, from) is Some,
        *last matches Some(t) ==> t.wf(),
    ensures
        forall|mv: TurnMove| #[trigger]
            moves@.contains(mv) ==> mv.from == from && mv.promote_to is None && mv.to.wf()
                && reachable_spec(grid@, from, mv.to, capture_spec(grid@, from, mv.to, *last) is Some),
        forall|to: Coord|
            to.wf() && reachable_spec(grid@, from, to, capture_spec(grid@, from, to, *last) is Some)
                ==> moves@.contains(TurnMove { from, to, promote_to: None }),
{
    let mut moves: Vec<TurnMove> = Vec::new();
    let mut i: usize = 0;
    while i < 64
        invariant
            i <= 64,
            forall|mv: TurnMove| #[trigger]
                moves@.contains(mv) ==> mv.from == from && mv.promote_to is None && mv.to.wf()
                    && reachable_spec(
                    grid@,
                    from,
                    mv.to,
                    capture_spec(grid@, from, mv.to, *last) is Some,
                ),
            forall|to: Coord|
                to.wf() && to.index() < i && reachable_spec(
                    grid@,
                    from,
                    to,
                    capture_spec(grid@, from, to, *last) is Some,
                ) ==> moves@.contains(TurnMove { from, to, promote_to: None }),
        decreases 64 - i,
    {
        let to = Coord::from_index(i);
        let capture_or = get_capture(grid, from, to, last);
        if is_reachable(grid, from, to, capture_or.is_some()) {
            let ghost old_moves = moves@;
            moves.push(TurnMove { from, to, promote_to: None });
            assert(moves@.contains(TurnMove { from, to, promote_to: None })) by {
                assert(moves@[old_moves.len() as int] == (TurnMove { from, to, promote_to: None }));
            }
            assert(forall|mv: TurnMove| #[trigger]
                moves@.contains(mv) && mv != (TurnMove { from, to, promote_to: None })
                    ==> old_moves.contains(mv)) by {
                assert(forall|j: int|
                    0 <= j < old_moves.len() ==> moves@[j] == old_moves[j] && old_moves.contains(
                        old_moves[j],
                    ));
            }
            assert forall|mv: TurnMove| #[trigger] old_moves.contains(mv) implies moves@.contains(
                mv,
            ) by {
                let j = choose|j: int| 0 <= j < old_moves.len() && old_moves[j] == mv;
                assert(moves@[j] == mv);
            }
        }
        assert(forall|c: Coord| c.wf() && c.index() == i ==> c == to);
        i = i + 1;
    }
    moves
}

/// Checkmate test under plain chess rules. Decides `chess_mate_spec`.
#[verifier::loop_isolation(false)]
pub fn is_chess_mate_to(grid: &Grid, king_pos: Coord, last: &Option<Turn>) -> (r: bool)
    requires
        grid.wf(),
        king_pos.wf(),
        at(grid@, king_pos) matches Some(p) && p.kind == PieceKind::King,
        *last matches Some(t) ==> t.wf(),
    ensures
        r == chess_mate_spec(grid@, king_pos, *last),
{
    if !is_check_to(grid, king_pos) {
        return false;
    }
    let force = king_force(grid, king_pos);
    let mut i: usize = 0;
    while i < 64
        invariant
            i <= 64,
            forall|from: Coord, to: Coord|
                from.wf() && from.index() < i ==> !escapes(grid@, king_pos, *last, from, to),
        decreases 64 - i,
    {
        let pos = Coord::from_index(i);
        if let Some(piece) = grid.get(pos) {
            if piece.force == force {
                let moves = generate_moves_for_mate_test(grid, pos, last);
                let mut mi: usize = 0;
                while mi < moves.len()
                    invariant
                        mi <= moves.len(),
                        forall|j: int|
                            0 <= j < mi ==> !escapes(grid@, king_pos, *last, pos, moves@[j].to),
                    decreases moves.len() - mi,
                {
                    let mv = moves[mi];
                    assert(moves@.contains(mv));
                    let capture_or = get_capture(grid, mv.from, mv.to, last);
                    let mut g2 = grid.duplicate();
                    if let Some(cpos) = capture_or {
                        assert(cpos.wf());
                        g2.set(cpos, None);
                    }
                    g2.set(mv.from, None);
                    g2.set(mv.to, Some(piece));
                    assert(g2@ == mate_test_grid(grid@, pos, mv.to, capture_or));
                    let new_king_pos = if piece.kind == PieceKind::King {
                        mv.to
                    } else {
                        king_pos
                    };
                    assert(at(g2@, new_king_pos) matches Some(p) && p.kind == PieceKind::King) by {
                        if piece.kind != PieceKind::King {
                            assert(mv.to != king_pos);
                            assert(pos != king_pos);
                            match capture_or {
                                Some(c) => assert(c != king_pos),
                                None => (),
                            }
                        }
                    }
                    if !is_check_to(&g2, new_king_pos) {
                        assert(escapes(grid@, king_pos, *last, pos, mv.to));
                        return false;
                    }
                    mi = mi + 1;
                }
                assert forall|to: Coord| !escapes(grid@, king_pos, *last, pos, to) by {
                    if escapes(grid@, king_pos, *last, pos, to) {
                        let mv = TurnMove { from: pos, to, promote_to: None };
                        assert(moves@.contains(mv));
                        let j = choose|j: int| 0 <= j < moves@.len() && moves@[j] == mv;
                        assert(!escapes(grid@, king_pos, *last, pos, moves@[j].to));
                        assert(false);
                    }
                }
            }
        }
        assert(forall|c: Coord| c.wf() && c.index() == i ==> c == pos);
        i = i + 1;
    }
    true
}

/// Checkmate test under bughouse rules. Decides `bughouse_mate_spec`.
#[verifier::loop_isolation(false)]
pub fn is_bughouse_mate_to(grid: &Grid, king_pos: Coord, last: &Option<Turn>) -> (r: bool)
    requires
        grid.wf(),
        king_pos.wf(),
        at(grid@, king_pos) matches Some(p) && p.kind == PieceKind::King,
        *last matches Some(t) ==> t.wf(),
    ensures
        r == bughouse_mate_spec(grid@, king_pos, *last),
{
    let force = king_force(grid, king_pos);
    if !is_chess_mate_to(grid, king_pos, last) {
        return false;
    }
    let kp_idx = king_pos.idx();
    let mut i: usize = 0;
    while i < 64
        invariant
            i <= 64,
            forall|j: int|
                0 <= j < i && j != king_pos.index() ==> check_spec(
                    #[trigger] grid@.update(j, Some(defending_queen(force))),
                    king_pos,
                ),
        decreases 64 - i,
    {
        if i != kp_idx {
            let pos = Coord::from_index(i);
            let mut g2 = grid.duplicate();
            g2.set(pos, Some(PieceOnBoard {
                kind: PieceKind::Queen,
                origin: crate::piece::PieceOrigin::Dropped,
                rook_castling: None,
                force,
            }));
            assert(g2@ == grid@.update(i as int, Some(defending_queen(force))));
            if !is_check_to(&g2, king_pos) {
                return false;
            }
        }
        i = i + 1;
    }
    true
}

} // verus!

verus! {

/// Mate implies check: a checkmated king stands in check, and no move of
/// its side escapes the check.
pub proof fn lemma_mate_implies_check(g: GridView, king_pos: Coord, last: Option<Turn>)
    requires
        chess_mate_spec(g, king_pos, last),
    ensures
        check_spec(g, king_pos),
        forall|from: Coord, to: Coord| !escapes(g, king_pos, last, from, to),
{
}

} // verus!
