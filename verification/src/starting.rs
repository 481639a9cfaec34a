use vstd::prelude::*;

use crate::board::{starting_grid_ok, tagged_rooks_ok};
use crate::coord::{coord_of_index, Coord};
use crate::force::Force;
use crate::grid::{at, Grid, GridView};
use crate::moves::{
    attacks_king, check_spec, dir_forward, king_at, king_pos_spec, one_king, path_clear,
    ray_square, reachable_spec,
};
use crate::piece::{CastleDirection, PieceKind, PieceOnBoard, PieceOrigin};

verus! {

/// The back-rank layout a game starts from: the classic arrangement, or a
/// fixed Fischer random arrangement (left to right, White's perspective).
#[derive(Clone, Copy, Debug)]
pub enum EffectiveStartingPosition {
    Classic,
    FischerRandom([PieceKind; 8]),
}

/// A usable back-rank layout: exactly one king and no pawns.
pub open spec fn layout_ok(s: Seq<PieceKind>) -> bool {
    &&& s.len() == 8
    &&& exists|k: int| 0 <= k < 8 && s[k] == PieceKind::King
    &&& forall|i: int, j: int|
        0 <= i < 8 && 0 <= j < 8 && s[i] == PieceKind::King && s[j] == PieceKind::King ==> i == j
    &&& forall|i: int| 0 <= i < 8 ==> s[i] != PieceKind::Pawn
}

/// The full shape of a drawn Fischer random back rank: a usable layout
/// with the two bishops on opposite-colour columns, the king strictly
/// between the two rooks, one queen and two knights, and nothing else.
pub open spec fn layout_full(s: Seq<PieceKind>) -> bool {
    &&& layout_ok(s)
    &&& (exists|i: int, j: int|
        0 <= i < 8 && 0 <= j < 8 && i % 2 == 0 && j % 2 == 1 && s[i] == PieceKind::Bishop && s[j]
            == PieceKind::Bishop)
    &&& (exists|r1: int, k: int, r2: int|
        0 <= r1 < 8 && 0 <= r2 < 8 && 0 <= k < 8 && r1 < k && k < r2 && s[r1] == PieceKind::Rook
            && s[k] == PieceKind::King && s[r2] == PieceKind::Rook)
    &&& (exists|i: int, j: int|
        0 <= i < 8 && 0 <= j < 8 && i != j && s[i] == PieceKind::Knight && s[j]
            == PieceKind::Knight)
    &&& (exists|i: int| 0 <= i < 8 && s[i] == PieceKind::Queen)
    &&& (forall|i: int, j: int, k: int|
        0 <= i < 8 && 0 <= j < 8 && 0 <= k < 8 && s[i] == PieceKind::Rook && s[j]
            == PieceKind::Rook && s[k] == PieceKind::Rook ==> i == j || i == k || j == k)
    &&& (forall|i: int, j: int, k: int|
        0 <= i < 8 && 0 <= j < 8 && 0 <= k < 8 && s[i] == PieceKind::Bishop && s[j]
            == PieceKind::Bishop && s[k] == PieceKind::Bishop ==> i == j || i == k || j == k)
    &&& (forall|i: int, j: int, k: int|
        0 <= i < 8 && 0 <= j < 8 && 0 <= k < 8 && s[i] == PieceKind::Knight && s[j]
            == PieceKind::Knight && s[k] == PieceKind::Knight ==> i == j || i == k || j == k)
    &&& (forall|i: int, j: int|
        0 <= i < 8 && 0 <= j < 8 && s[i] == PieceKind::Queen && s[j] == PieceKind::Queen ==> i
            == j)
}

pub open spec fn classic_kinds() -> Seq<PieceKind> {
    seq![
        PieceKind::Rook,
        PieceKind::Knight,
        PieceKind::Bishop,
        PieceKind::Queen,
        PieceKind::King,
        PieceKind::Bishop,
        PieceKind::Knight,
        PieceKind::Rook,
    ]
}

pub open spec fn position_kinds(position: EffectiveStartingPosition) -> Seq<PieceKind> {
    match position {
        EffectiveStartingPosition::Classic => classic_kinds(),
        EffectiveStartingPosition::FischerRandom(pieces) => pieces@,
    }
}

impl EffectiveStartingPosition {
    pub open spec fn wf(self) -> bool {
        layout_ok(position_kinds(self))
    }
}

/// Castling tag a back-rank piece gets: the leftmost rook castles a-side,
/// any further rook h-side.
pub open spec fn rook_tag(kinds: Seq<PieceKind>, c: int) -> Option<CastleDirection> {
    if kinds[c] != PieceKind::Rook {
        None
    } else if forall|j: int| 0 <= j < c ==> kinds[j] != PieceKind::Rook {
        Some(CastleDirection::ASide)
    } else {
        Some(CastleDirection::HSide)
    }
}

/// What stands on each square of the starting grid for a layout.
pub open spec fn start_piece(kinds: Seq<PieceKind>, q: Coord) -> Option<PieceOnBoard> {
    if q.row == 0 {
        Some(
            PieceOnBoard {
                kind: kinds[q.col as int],
                origin: PieceOrigin::Innate,
                rook_castling: rook_tag(kinds, q.col as int),
                force: Force::White,
            },
        )
    } else if q.row == 7 {
        Some(
            PieceOnBoard {
                kind: kinds[q.col as int],
                origin: PieceOrigin::Innate,
                rook_castling: rook_tag(kinds, q.col as int),
                force: Force::Black,
            },
        )
    } else if q.row == 1 {
        Some(
            PieceOnBoard {
                kind: PieceKind::Pawn,
                origin: PieceOrigin::Innate,
                rook_castling: None,
                force: Force::White,
            },
        )
    } else if q.row == 6 {
        Some(
            PieceOnBoard {
                kind: PieceKind::Pawn,
                origin: PieceOrigin::Innate,
                rook_castling: None,
                force: Force::Black,
            },
        )
    } else {
        None
    }
}

/// A grid laid out by `start_piece` over a usable layout can start a game:
/// one king each, tags on rooks only, and Black not in check (the full pawn
/// rank blocks every White piece).
proof fn lemma_start_grid_ok(kinds: Seq<PieceKind>, g: GridView)
    requires
        layout_ok(kinds),
        g.len() == 64,
        forall|q: Coord| q.wf() ==> #[trigger] at(g, q) == start_piece(kinds, q),
    ensures
        starting_grid_ok(g),
{
    let kc = choose|k: int| 0 <= k < 8 && kinds[k] == PieceKind::King;
    let wkp = Coord { row: 0, col: kc as u8 };
    let bkp = Coord { row: 7, col: kc as u8 };
    assert(king_at(g, wkp, Force::White));
    assert(king_at(g, bkp, Force::Black));
    assert forall|c: Coord| king_at(g, c, Force::White) implies c == wkp by {
        assert(at(g, c) == start_piece(kinds, c));
    }
    assert forall|c: Coord| king_at(g, c, Force::Black) implies c == bkp by {
        assert(at(g, c) == start_piece(kinds, c));
    }
    assert(one_king(g, Force::White));
    assert(one_king(g, Force::Black));
    assert(tagged_rooks_ok(g)) by {
        assert forall|i: int|
            0 <= i < 64 implies (#[trigger] g[i] matches Some(p) ==> (p.rook_castling
            is Some ==> p.kind == PieceKind::Rook)) by {
            let c = coord_of_index(i);
            assert(c.wf() && c.index() == i);
            assert(g[i] == at(g, c));
            assert(at(g, c) == start_piece(kinds, c));
        }
    }
    assert(king_pos_spec(g, Force::Black) == bkp);
    assert forall|i: int| !attacks_king(g, i, bkp) by {
        if 0 <= i < 64 {
            let c = coord_of_index(i);
            assert(c.wf() && c.index() == i);
            assert(at(g, c) == start_piece(kinds, c));
            if at(g, c) is Some && at(g, c)->0.force != at(g, bkp)->0.force {
                let p = at(g, c)->0;
                assert(p.force == Force::White);
                assert(c.row == 0 || c.row == 1);
                if reachable_spec(g, c, bkp, true) {
                    if c.row == 1 {
                        assert(p.kind == PieceKind::Pawn);
                        assert(dir_forward(Force::White) == 1);
                        assert(bkp.row - c.row == 6);
                        assert(false);
                    } else {
                        assert(p.kind == kinds[c.col as int]);
                        assert(p.kind != PieceKind::Pawn);
                        let dr = crate::moves::d_row(c, bkp);
                        let dc = crate::moves::d_col(c, bkp);
                        assert(dr == 7);
                        match p.kind {
                            PieceKind::King => {
                                assert(false);
                            },
                            PieceKind::Knight => {
                                assert(false);
                            },
                            PieceKind::Pawn => {
                                assert(false);
                            },
                            _ => {
                                // A slider: aligned, so it passes over the
                                // pawn rank, which is occupied.
                                assert(dc == 0 || crate::moves::iabs(dc) == 7);
                                let sc = crate::moves::isgn(dc);
                                let blocker = ray_square(c, 1, sc, 1);
                                assert(blocker.row == 1 && 0 <= blocker.col < 8);
                                assert(at(g, blocker) == start_piece(kinds, blocker));
                                assert(at(g, blocker) is Some);
                                assert(crate::moves::imax(
                                    crate::moves::iabs(dr),
                                    crate::moves::iabs(dc),
                                ) == 7);
                                assert(!path_clear(g, c, bkp));
                                assert(false);
                            },
                        }
                    }
                }
            }
        }
    }
    assert(!check_spec(g, king_pos_spec(g, Force::Black)));
}

/// Builds the starting grid for a layout: back ranks on rows 1 and 8
/// (mirrored), full pawn ranks on rows 2 and 7, the leftmost rook of each
/// force tagged a-side and the other rook h-side.
#[verifier::loop_isolation(false)]
pub fn generate_starting_grid(position: &EffectiveStartingPosition) -> (r: Grid)
    requires
        position.wf(),
    ensures
        r.wf(),
        starting_grid_ok(r@),
        forall|q: Coord| q.wf() ==> #[trigger] at(r@, q) == start_piece(position_kinds(*position), q),
{
    let kinds: Vec<PieceKind> = match position {
        EffectiveStartingPosition::Classic => {
            let mut v: Vec<PieceKind> = Vec::new();
            v.push(PieceKind::Rook);
            v.push(PieceKind::Knight);
            v.push(PieceKind::Bishop);
            v.push(PieceKind::Queen);
            v.push(PieceKind::King);
            v.push(PieceKind::Bishop);
            v.push(PieceKind::Knight);
            v.push(PieceKind::Rook);
            assert(v@ =~= classic_kinds());
            v
        },
        EffectiveStartingPosition::FischerRandom(pieces) => {
            let mut v: Vec<PieceKind> = Vec::new();
            let mut i: usize = 0;
            while i < 8
                invariant
                    i <= 8,
                    v@.len() == i,
                    forall|j: int| 0 <= j < i ==> v@[j] == pieces@[j],
                decreases 8 - i,
            {
                v.push(pieces[i]);
                i = i + 1;
            }
            assert(v@ =~= pieces@);
            v
        },
    };
    let ghost ks = position_kinds(*position);
    assert(kinds@ == ks);
    let mut grid = Grid::new();
    let mut seen_rook = false;
    let mut c: usize = 0;
    while c < 8
        invariant
            c <= 8,
            grid.wf(),
            seen_rook == exists|j: int| 0 <= j < c && ks[j] == PieceKind::Rook,
            forall|q: Coord|
                q.wf() ==> #[trigger] at(grid@, q) == if q.col < c && (q.row == 0 || q.row == 1
                    || q.row == 6 || q.row == 7) {
                    start_piece(ks, q)
                } else {
                    None
                },
        decreases 8 - c,
    {
        let kind = kinds[c];
        let rook_castling = if kind == PieceKind::Rook {
            if !seen_rook {
                seen_rook = true;
                Some(CastleDirection::ASide)
            } else {
                Some(CastleDirection::HSide)
            }
        } else {
            None
        };
        proof {
            assert(rook_castling == rook_tag(ks, c as int));
        }
        let ghost g_before = grid@;
        let col = c as u8;
        grid.set(
            Coord { row: 0, col },
            Some(PieceOnBoard { kind, origin: PieceOrigin::Innate, rook_castling, force: Force::White }),
        );
        grid.set(
            Coord { row: 7, col },
            Some(PieceOnBoard { kind, origin: PieceOrigin::Innate, rook_castling, force: Force::Black }),
        );
        grid.set(
            Coord { row: 1, col },
            Some(
                PieceOnBoard {
                    kind: PieceKind::Pawn,
                    origin: PieceOrigin::Innate,
                    rook_castling: None,
                    force: Force::White,
                },
            ),
        );
        grid.set(
            Coord { row: 6, col },
            Some(
                PieceOnBoard {
                    kind: PieceKind::Pawn,
                    origin: PieceOrigin::Innate,
                    rook_castling: None,
                    force: Force::Black,
                },
            ),
        );
        proof {
            assert forall|q: Coord|
                q.wf() implies #[trigger] at(grid@, q) == if q.col < c + 1 && (q.row == 0 || q.row
                == 1 || q.row == 6 || q.row == 7) {
                start_piece(ks, q)
            } else {
                None
            } by {
                if q.col == col {
                    if q.row == 0 {
                        assert(q == Coord { row: 0, col });
                        assert(q.index() != Coord { row: 7, col }.index());
                        assert(q.index() != Coord { row: 1, col }.index());
                        assert(q.index() != Coord { row: 6, col }.index());
                        assert(at(grid@, q) == Some(
                            PieceOnBoard {
                                kind,
                                origin: PieceOrigin::Innate,
                                rook_castling,
                                force: Force::White,
                            },
                        ));
                        assert(kind == ks[q.col as int]);
                        assert(rook_castling == rook_tag(ks, q.col as int));
                        assert(at(grid@, q) == start_piece(ks, q));
                    } else if q.row == 1 {
                        assert(q == Coord { row: 1, col });
                    } else if q.row == 6 {
                        assert(q == Coord { row: 6, col });
                    } else if q.row == 7 {
                        assert(q == Coord { row: 7, col });
                    } else {
                        assert(q.index() != Coord { row: 0, col }.index());
                        assert(q.index() != Coord { row: 1, col }.index());
                        assert(q.index() != Coord { row: 6, col }.index());
                        assert(q.index() != Coord { row: 7, col }.index());
                        assert(at(grid@, q) == at(g_before, q));
                    }
                } else {
                    assert(q.index() != Coord { row: 0, col }.index());
                    assert(q.index() != Coord { row: 1, col }.index());
                    assert(q.index() != Coord { row: 6, col }.index());
                    assert(q.index() != Coord { row: 7, col }.index());
                    assert(at(grid@, q) == at(g_before, q));
                }
            }
        }
        c = c + 1;
    }
    proof {
        lemma_start_grid_ok(ks, grid@);
    }
    grid
}

} // verus!

// Random generation of a Fischer random back rank.
verus! {

/// Relies on rand::Rng::gen_range over the range `0..n`: it returns a value
/// of that range and panics only when the range is empty. Nothing more is
/// assumed of the value — it is random.
#[verifier::external_body]
fn random_below(n: usize) -> (r: usize)
    requires
        n >= 1,
    ensures
        r < n,
{
    rand::Rng::gen_range(&mut rand::thread_rng(), 0..n)
}

fn unwrap_slot(slots: &Vec<Option<PieceKind>>, i: usize) -> (r: PieceKind)
    requires
        i < slots@.len(),
        slots@[i as int] is Some,
    ensures
        r == slots@[i as int]->0,
{
    slots[i].unwrap()
}

/// Strictly increasing.
pub open spec fn sorted_strict(s: Seq<usize>) -> bool {
    forall|p: int, q: int| 0 <= p < q < s.len() ==> s[p] < s[q]
}

/// Takes one element of the vector, each position equally likely, keeping
/// the rest in order.
fn take_random(free: &mut Vec<usize>) -> (r: usize)
    requires
        old(free)@.len() >= 1,
        sorted_strict(old(free)@),
    ensures
        final(free)@.len() == old(free)@.len() - 1,
        sorted_strict(final(free)@),
        old(free)@.contains(r),
        final(free)@.to_multiset() == old(free)@.to_multiset().remove(r),
{
    broadcast use vstd::seq_lib::group_to_multiset_ensures;

    let i = random_below(free.len());
    let r = free[i];
    free.remove(i);
    proof {
        old(free)@.remove_ensures(i as int);
        assert(old(free)@[i as int] == r);
        assert(old(free)@.contains(r));
        assert(final(free)@.to_multiset() =~= old(free)@.to_multiset().remove(r));
    }
    r
}

/// Draws a Fischer random back rank: bishops on one random even and one
/// random odd column, queen and two knights on three random remaining
/// columns, and the king between the two rooks on the other three.
#[verifier::loop_isolation(false)]
#[verifier::rlimit(60)]
pub fn fischer_random_layout() -> (r: [PieceKind; 8])
    ensures
        layout_full(r@),
{
    broadcast use vstd::seq_lib::group_to_multiset_ensures;

    let b1: usize = 2 * random_below(4);
    let b2: usize = 2 * random_below(4) + 1;
    let mut slots: Vec<Option<PieceKind>> = Vec::new();
    let mut i: usize = 0;
    while i < 8
        invariant
            i <= 8,
            slots@.len() == i,
            forall|j: int| 0 <= j < i ==> slots@[j] is None,
        decreases 8 - i,
    {
        slots.push(None);
        i = i + 1;
    }
    slots.set(b1, Some(PieceKind::Bishop));
    slots.set(b2, Some(PieceKind::Bishop));
    assert(forall|j: int|
        0 <= j < 8 ==> slots@[j] == if j == b1 || j == b2 {
            Some(PieceKind::Bishop)
        } else {
            None::<PieceKind>
        });
    let mut free: Vec<usize> = Vec::new();
    let mut c: usize = 0;
    while c < 8
        invariant
            c <= 8,
            free@.len() == c - (if b1 < c {
                1int
            } else {
                0int
            }) - (if b2 < c {
                1int
            } else {
                0int
            }),
            forall|p: int| 0 <= p < free@.len() ==> #[trigger] free@[p] < c,
            sorted_strict(free@),
            forall|j: int| 0 <= j < c ==> (slots@[j] is None <==> free@.contains(j as usize)),
        decreases 8 - c,
    {
        let ghost old_free = free@;
        if slots[c].is_none() {
            free.push(c);
            assert(free@[old_free.len() as int] == c);
            assert(forall|p: int| 0 <= p < old_free.len() ==> free@[p] == old_free[p]);
            assert(free@.contains(c));
        }
        assert forall|j: int| 0 <= j < c + 1 implies (slots@[j] is None <==> free@.contains(
            j as usize,
        )) by {
            if j < c {
                if old_free.contains(j as usize) {
                    let p = choose|p: int| 0 <= p < old_free.len() && old_free[p] == j as usize;
                    assert(free@[p] == j as usize);
                }
                if free@.contains(j as usize) && !old_free.contains(j as usize) {
                    let p = choose|p: int| 0 <= p < free@.len() && free@[p] == j as usize;
                    assert(p == old_free.len() as int);
                    assert(false);
                }
            }
        }
        c = c + 1;
    }
    assert(free@.len() == 6);
    let ghost free6 = free@;
    proof {
        // Sorted, so every column appears at most once.
        assert(free6.no_duplicates());
        free6.lemma_multiset_has_no_duplicates();
        assert forall|x: usize| free6.to_multiset().count(x) <= 1 by {
            if free6.to_multiset().count(x) >= 1 {
                assert(free6.to_multiset().contains(x));
            }
        }
    }
    let q3 = take_random(&mut free);
    let ghost free5 = free@;
    let n4 = take_random(&mut free);
    let ghost free4 = free@;
    let n5 = take_random(&mut free);
    let lo = free[0];
    let mid = free[1];
    let hi = free[2];
    proof {
        assert(free@[0] == lo && free@[1] == mid && free@[2] == hi);
        assert(lo < mid && mid < hi);
        assert(free@.contains(lo) && free@.contains(mid) && free@.contains(hi));
        assert(free@.to_multiset() == free6.to_multiset().remove(q3).remove(n4).remove(n5));
        assert(free6.contains(q3) && free5.contains(n4) && free4.contains(n5));
        assert(free6.to_multiset().count(q3) == 1);
        assert(free5.to_multiset().count(n4) > 0 && free4.to_multiset().count(n5) > 0);
        assert(n4 != q3 && n5 != q3 && n5 != n4);
        assert(free6.to_multiset().count(n4) > 0 && free6.to_multiset().count(n5) > 0);
        assert(free6.contains(n4) && free6.contains(n5));
        assert forall|x: usize| free@.contains(x) implies free6.contains(x) && x != q3 && x != n4
            && x != n5 by {
            assert(free@.to_multiset().count(x) > 0);
            assert(free6.to_multiset().count(x) > 0);
            assert(free6.to_multiset().count(x) <= 1);
        }
        assert forall|j: int| 0 <= j < 8 implies (slots@[j] is None <==> (j == lo || j == mid || j
            == hi || j == q3 || j == n4 || j == n5)) by {
            if slots@[j] is None {
                assert(free6.contains(j as usize));
                if j != q3 && j != n4 && j != n5 {
                    assert(free6.to_multiset().count(j as usize) > 0);
                    assert(free@.to_multiset().count(j as usize) == free6.to_multiset().count(
                        j as usize,
                    ));
                    assert(free@.contains(j as usize));
                    let p = choose|p: int| 0 <= p < free@.len() && free@[p] == j as usize;
                    assert(p == 0 || p == 1 || p == 2);
                }
            } else {
                assert(!free6.contains(j as usize));
                assert(j != q3 && j != n4 && j != n5);
                if j == lo || j == mid || j == hi {
                    assert(free@.contains(j as usize));
                    assert(free6.contains(j as usize));
                    assert(false);
                }
            }
        }
        assert(free6.contains(q3) && free6.contains(n4) && free6.contains(n5));
        assert(q3 < 8 && n4 < 8 && n5 < 8) by {
            let p1 = choose|p: int| 0 <= p < free6.len() && free6[p] == q3;
            let p2 = choose|p: int| 0 <= p < free6.len() && free6[p] == n4;
            let p3 = choose|p: int| 0 <= p < free6.len() && free6[p] == n5;
            assert(free6[p1] < 8 && free6[p2] < 8 && free6[p3] < 8);
        }
        assert(hi < 8) by {
            assert(free6.contains(hi));
            let p1 = choose|p: int| 0 <= p < free6.len() && free6[p] == hi;
            assert(free6[p1] < 8);
        }
        assert(q3 != lo && q3 != mid && q3 != hi);
        assert(n4 != lo && n4 != mid && n4 != hi);
        assert(n5 != lo && n5 != mid && n5 != hi);
    }
    fill_and_pack(&mut slots, b1, b2, lo, mid, hi, q3, n4, n5)
}

/// Places rook, king, rook and queen and knights on the six free columns
/// between the two already-placed bishops and packs the finished back rank.
#[verifier::rlimit(60)]
fn fill_and_pack(
    slots: &mut Vec<Option<PieceKind>>,
    b1: usize,
    b2: usize,
    lo: usize,
    mid: usize,
    hi: usize,
    q3: usize,
    n4: usize,
    n5: usize,
) -> (r: [PieceKind; 8])
    requires
        old(slots)@.len() == 8,
        b1 < 8 && b2 < 8 && b1 % 2 == 0 && b2 % 2 == 1,
        lo < mid && mid < hi && hi < 8,
        q3 < 8 && n4 < 8 && n5 < 8,
        forall|j: int|
            0 <= j < 8 ==> old(slots)@[j] == if j == b1 || j == b2 {
                Some(PieceKind::Bishop)
            } else {
                None::<PieceKind>
            },
        forall|j: int|
            0 <= j < 8 ==> (old(slots)@[j] is None <==> (j == lo || j == mid || j == hi || j == q3
                || j == n4 || j == n5)),
        q3 != lo && q3 != mid && q3 != hi && q3 != n4 && q3 != n5,
        n4 != lo && n4 != mid && n4 != hi && n4 != n5,
        n5 != lo && n5 != mid && n5 != hi,
    ensures
        layout_full(r@),
{
    slots.set(lo, Some(PieceKind::Rook));
    slots.set(mid, Some(PieceKind::King));
    slots.set(hi, Some(PieceKind::Rook));
    slots.set(q3, Some(PieceKind::Queen));
    slots.set(n4, Some(PieceKind::Knight));
    slots.set(n5, Some(PieceKind::Knight));
    proof {
        assert(forall|j: int| 0 <= j < 8 ==> slots@[j] is Some);
        assert(forall|j: int| 0 <= j < 8 && slots@[j] == Some(PieceKind::King) ==> j == mid);
        assert(forall|j: int| 0 <= j < 8 ==> slots@[j] != Some(PieceKind::Pawn));
    }
    let r: [PieceKind; 8] = [
        unwrap_slot(slots, 0),
        unwrap_slot(slots, 1),
        unwrap_slot(slots, 2),
        unwrap_slot(slots, 3),
        unwrap_slot(slots, 4),
        unwrap_slot(slots, 5),
        unwrap_slot(slots, 6),
        unwrap_slot(slots, 7),
    ];
    proof {
        // The finished rank, square by square.
        assert forall|j: int|
            0 <= j < 8 implies r@[j] == (if j == mid {
            PieceKind::King
        } else if j == lo || j == hi {
            PieceKind::Rook
        } else if j == q3 {
            PieceKind::Queen
        } else if j == n4 || j == n5 {
            PieceKind::Knight
        } else {
            PieceKind::Bishop
        }) by {
            if j != mid && j != lo && j != hi && j != q3 && j != n4 && j != n5 {
                assert(slots@[j] == old(slots)@[j]);
                assert(old(slots)@[j] is Some);
            }
        }
        assert(r@[b1 as int] == PieceKind::Bishop && r@[b2 as int] == PieceKind::Bishop);
        assert(r@[lo as int] == PieceKind::Rook && r@[mid as int] == PieceKind::King && r@[
            hi as int
        ] == PieceKind::Rook);
        assert(r@[n4 as int] == PieceKind::Knight && r@[n5 as int] == PieceKind::Knight);
        assert(r@[q3 as int] == PieceKind::Queen);
    }
    r
}

} // verus!

verus! {

/// The classic back rank is a usable layout.
pub proof fn lemma_classic_layout_ok()
    ensures
        layout_ok(classic_kinds()),
{
    let s = classic_kinds();
    assert(s[4] == PieceKind::King);
    assert forall|i: int, j: int|
        0 <= i < 8 && 0 <= j < 8 && s[i] == PieceKind::King && s[j] == PieceKind::King implies i
        == j by {
        assert(s[0] == PieceKind::Rook && s[1] == PieceKind::Knight && s[2] == PieceKind::Bishop
            && s[3] == PieceKind::Queen && s[5] == PieceKind::Bishop && s[6] == PieceKind::Knight
            && s[7] == PieceKind::Rook);
    }
    assert forall|i: int| 0 <= i < 8 implies s[i] != PieceKind::Pawn by {
        assert(s[0] == PieceKind::Rook && s[1] == PieceKind::Knight && s[2] == PieceKind::Bishop
            && s[3] == PieceKind::Queen && s[4] == PieceKind::King && s[5] == PieceKind::Bishop
            && s[6] == PieceKind::Knight && s[7] == PieceKind::Rook);
    }
}

} // verus!
