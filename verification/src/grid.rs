use vstd::prelude::*;

use crate::coord::Coord;
use crate::force::Force;
use crate::piece::{PieceKind, PieceOnBoard};

verus! {

/// The board contents as a mathematical value: a row-major sequence of 64
/// optional pieces.
pub type GridView = Seq<Option<PieceOnBoard>>;

/// The piece (if any) on a square of a grid view.
pub open spec fn at(g: GridView, c: Coord) -> Option<PieceOnBoard> {
    g[c.index()]
}

pub open spec fn grid_view_wf(g: GridView) -> bool {
    g.len() == 64
}

/// A king of the given force stands at row-major index `i`.
pub open spec fn is_king_at(g: GridView, i: int, force: Force) -> bool {
    0 <= i < 64 && (g[i] matches Some(p) && p.kind == PieceKind::King && p.force == force)
}

/// Number of kings of a force on the grid.
pub open spec fn king_count(g: GridView, force: Force) -> nat {
    Set::new(|i: int| is_king_at(g, i, force)).len()
}

/// Total mapping from squares to optional pieces.
pub struct Grid {
    squares: Vec<Option<PieceOnBoard>>,
}

impl View for Grid {
    type V = GridView;

    closed spec fn view(&self) -> GridView {
        self.squares@
    }
}

impl Grid {
    pub open spec fn wf(&self) -> bool {
        grid_view_wf(self@)
    }

    /// An empty board.
    pub fn new() -> (r: Grid)
        ensures
            r.wf(),
            forall|i: int| 0 <= i < 64 ==> r@[i] is None,
    {
        let mut squares: Vec<Option<PieceOnBoard>> = Vec::new();
        let mut i: usize = 0;
        while i < 64
            invariant
                i <= 64,
                squares@.len() == i,
                forall|j: int| 0 <= j < i ==> squares@[j] is None,
            decreases 64 - i,
        {
            squares.push(None);
            i = i + 1;
        }
        Grid { squares }
    }

    pub fn get(&self, c: Coord) -> (r: Option<PieceOnBoard>)
        requires
            self.wf(),
            c.wf(),
        ensures
            r == at(self@, c),
    {
        self.squares[c.idx()]
    }

    pub fn set(&mut self, c: Coord, v: Option<PieceOnBoard>)
        requires
            old(self).wf(),
            c.wf(),
        ensures
            final(self).wf(),
            final(self)@ == old(self)@.update(c.index(), v),
    {
        let i = c.idx();
        self.squares.set(i, v);
    }

    /// An independent copy with the same contents.
    pub fn duplicate(&self) -> (r: Grid)
        requires
            self.wf(),
        ensures
            r@ == self@,
    {
        let mut squares: Vec<Option<PieceOnBoard>> = Vec::new();
        let mut i: usize = 0;
        while i < 64
            invariant
                self.wf(),
                i <= 64,
                squares@.len() == i,
                forall|j: int| 0 <= j < i ==> squares@[j] == self@[j],
            decreases 64 - i,
        {
            squares.push(self.squares[i]);
            i = i + 1;
        }
        let r = Grid { squares };
        assert(r@ =~= self@);
        r
    }
}

} // verus!

// Plain-text rendering of the board.
verus! {

/// The glyph a square renders as: a chess figure, or a dot for emptiness.
pub open spec fn piece_unicode(p: Option<PieceOnBoard>) -> char {
    match p {
        None => '.',
        Some(piece) => match (piece.force, piece.kind) {
            (Force::White, PieceKind::Pawn) => '♙',
            (Force::White, PieceKind::Knight) => '♘',
            (Force::White, PieceKind::Bishop) => '♗',
            (Force::White, PieceKind::Rook) => '♖',
            (Force::White, PieceKind::Queen) => '♕',
            (Force::White, PieceKind::King) => '♔',
            (Force::Black, PieceKind::Pawn) => '♟',
            (Force::Black, PieceKind::Knight) => '♞',
            (Force::Black, PieceKind::Bishop) => '♝',
            (Force::Black, PieceKind::Rook) => '♜',
            (Force::Black, PieceKind::Queen) => '♛',
            (Force::Black, PieceKind::King) => '♚',
        },
    }
}

/// The rendered board: eight lines of eight glyphs, rank 8 first.
pub open spec fn grid_unicode(g: GridView) -> Seq<char> {
    Seq::new(
        72,
        |i: int|
            if i % 9 == 8 {
                '\n'
            } else {
                piece_unicode(g[(7 - i / 9) * 8 + i % 9])
            },
    )
}

fn append_glyph(s: &mut String, p: Option<PieceOnBoard>)
    ensures
        final(s)@ == old(s)@ + seq![piece_unicode(p)],
{
    match p {
        None => {
            proof {
                reveal_strlit(".");
            }
            s.append(".");
        },
        Some(piece) => {
            match (piece.force, piece.kind) {
                (Force::White, PieceKind::Pawn) => {
                    proof {
                        reveal_strlit("♙");
                    }
                    s.append("♙");
                },
                (Force::White, PieceKind::Knight) => {
                    proof {
                        reveal_strlit("♘");
                    }
                    s.append("♘");
                },
                (Force::White, PieceKind::Bishop) => {
                    proof {
                        reveal_strlit("♗");
                    }
                    s.append("♗");
                },
                (Force::White, PieceKind::Rook) => {
                    proof {
                        reveal_strlit("♖");
                    }
                    s.append("♖");
                },
                (Force::White, PieceKind::Queen) => {
                    proof {
                        reveal_strlit("♕");
                    }
                    s.append("♕");
                },
                (Force::White, PieceKind::King) => {
                    proof {
                        reveal_strlit("♔");
                    }
                    s.append("♔");
                },
                (Force::Black, PieceKind::Pawn) => {
                    proof {
                        reveal_strlit("♟");
                    }
                    s.append("♟");
                },
                (Force::Black, PieceKind::Knight) => {
                    proof {
                        reveal_strlit("♞");
                    }
                    s.append("♞");
                },
                (Force::Black, PieceKind::Bishop) => {
                    proof {
                        reveal_strlit("♝");
                    }
                    s.append("♝");
                },
                (Force::Black, PieceKind::Rook) => {
                    proof {
                        reveal_strlit("♜");
                    }
                    s.append("♜");
                },
                (Force::Black, PieceKind::Queen) => {
                    proof {
                        reveal_strlit("♛");
                    }
                    s.append("♛");
                },
                (Force::Black, PieceKind::King) => {
                    proof {
                        reveal_strlit("♚");
                    }
                    s.append("♚");
                },
            }
        },
    }
    assert(final(s)@ =~= old(s)@ + seq![piece_unicode(p)]);
}

impl Grid {
    /// Renders the board as eight lines of glyphs, rank 8 first.
    #[verifier::loop_isolation(false)]
    pub fn render_as_unicode(&self) -> (r: String)
        requires
            self.wf(),
        ensures
            r@ == grid_unicode(self@),
    {
        let mut s = String::new();
        let mut k: usize = 0;
        while k < 72
            invariant
                k <= 72,
                s@ == grid_unicode(self@).take(k as int),
            decreases 72 - k,
        {
            if k % 9 == 8 {
                proof {
                    reveal_strlit("\n");
                }
                s.append("\n");
            } else {
                let row = 7 - k / 9;
                let col = k % 9;
                let p = self.get(Coord { row: row as u8, col: col as u8 });
                append_glyph(&mut s, p);
            }
            assert(s@ =~= grid_unicode(self@).take(k + 1));
            k = k + 1;
        }
        assert(s@ =~= grid_unicode(self@));
        s
    }
}

} // verus!
