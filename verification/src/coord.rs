use vstd::prelude::*;

use crate::force::Force;

verus! {

pub const NUM_ROWS: u8 = 8;

pub const NUM_COLS: u8 = 8;

/// A square of the board. Row 0 is White's back rank (rank "1" in algebraic
/// notation), column 0 is the a-file.
#[derive(Clone, Copy, PartialEq, Eq, Structural, Debug)]
pub struct Coord {
    pub row: u8,
    pub col: u8,
}

impl Coord {
    /// Both coordinates lie on the board.
    pub open spec fn wf(self) -> bool {
        self.row < 8 && self.col < 8
    }

    /// Position of this square in a row-major flattening of the board.
    pub open spec fn index(self) -> int {
        self.row * 8 + self.col
    }

    pub fn new(row: u8, col: u8) -> (r: Coord)
        requires
            row < 8,
            col < 8,
        ensures
            r == (Coord { row, col }),
    {
        Coord { row, col }
    }

    /// Row-major index as an executable value.
    pub fn idx(self) -> (r: usize)
        requires
            self.wf(),
        ensures
            r == self.index(),
    {
        self.row as usize * 8 + self.col as usize
    }

    /// Inverse of `idx`.
    pub fn from_index(i: usize) -> (r: Coord)
        requires
            i < 64,
        ensures
            r.wf(),
            r.index() == i,
    {
        Coord { row: (i / 8) as u8, col: (i % 8) as u8 }
    }

    /// Square named by a two-character algebraic string such as "e4".
    pub fn from_algebraic(s: &str) -> (r: Option<Coord>)
        ensures
            match r {
                Some(c) => c.wf() && s@ =~= seq![col_char(c.col as int), row_char(c.row as int)],
                None => !(exists|c: Coord|
                    c.wf() && s@ =~= seq![col_char(c.col as int), row_char(c.row as int)]),
            },
    {
        let len = s.unicode_len();
        if len != 2 {
            assert(forall|c: Coord| c.wf() ==> (seq![
                col_char(c.col as int),
                row_char(c.row as int),
            ]).len() == 2);
            return None;
        }
        let file = s.get_char(0);
        let rank = s.get_char(1);
        let col_or = col_from_char(file);
        let row_or = row_from_char(rank);
        match (col_or, row_or) {
            (Some(col), Some(row)) => {
                let c = Coord { row, col };
                assert(s@ =~= seq![col_char(col as int), row_char(row as int)]);
                Some(c)
            },
            _ => {
                assert(forall|c: Coord|
                    c.wf() && s@ =~= seq![col_char(c.col as int), row_char(c.row as int)]
                        ==> s@[0] == col_char(c.col as int) && s@[1] == row_char(c.row as int));
                None
            },
        }
    }
}

/// Proof-level lookup of a coordinate by its row-major index.
pub open spec fn coord_of_index(i: int) -> Coord {
    Coord { row: (i / 8) as u8, col: (i % 8) as u8 }
}

pub broadcast proof fn lemma_coord_index_bijective(c: Coord)
    requires
        c.wf(),
    ensures
        0 <= #[trigger] c.index() < 64,
        coord_of_index(c.index()) == c,
{
}

/// The algebraic file letter of a column.
pub open spec fn col_char(col: int) -> char {
    if col == 0 {
        'a'
    } else if col == 1 {
        'b'
    } else if col == 2 {
        'c'
    } else if col == 3 {
        'd'
    } else if col == 4 {
        'e'
    } else if col == 5 {
        'f'
    } else if col == 6 {
        'g'
    } else {
        'h'
    }
}

/// The algebraic rank digit of a row.
pub open spec fn row_char(row: int) -> char {
    if row == 0 {
        '1'
    } else if row == 1 {
        '2'
    } else if row == 2 {
        '3'
    } else if row == 3 {
        '4'
    } else if row == 4 {
        '5'
    } else if row == 5 {
        '6'
    } else if row == 6 {
        '7'
    } else {
        '8'
    }
}

/// Column named by a file letter, if any.
pub fn col_from_char(c: char) -> (r: Option<u8>)
    ensures
        match r {
            Some(col) => col < 8 && c == col_char(col as int),
            None => forall|col: int| 0 <= col < 8 ==> c != col_char(col),
        },
{
    match c {
        'a' => Some(0),
        'b' => Some(1),
        'c' => Some(2),
        'd' => Some(3),
        'e' => Some(4),
        'f' => Some(5),
        'g' => Some(6),
        'h' => Some(7),
        _ => None,
    }
}

/// Row named by a rank digit, if any.
pub fn row_from_char(c: char) -> (r: Option<u8>)
    ensures
        match r {
            Some(row) => row < 8 && c == row_char(row as int),
            None => forall|row: int| 0 <= row < 8 ==> c != row_char(row),
        },
{
    match c {
        '1' => Some(0),
        '2' => Some(1),
        '3' => Some(2),
        '4' => Some(3),
        '5' => Some(4),
        '6' => Some(5),
        '7' => Some(6),
        '8' => Some(7),
        _ => None,
    }
}

/// Absolute row of a rank counted from a force's own back rank
/// (`one_based` is 1 for the back rank, 8 for the farthest rank).
pub open spec fn spec_subjective_row(one_based: u8, force: Force) -> int {
    match force {
        Force::White => one_based - 1,
        Force::Black => 8 - one_based,
    }
}

pub fn subjective_row_to_row(one_based: u8, force: Force) -> (r: u8)
    requires
        1 <= one_based <= 8,
    ensures
        r == spec_subjective_row(one_based, force),
        r < 8,
{
    match force {
        Force::White => one_based - 1,
        Force::Black => 8 - one_based,
    }
}

} // verus!
