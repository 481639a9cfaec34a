use vstd::prelude::*;

use crate::coord::{col_char, row_char, Coord};
use crate::force::Force;
use crate::grid::{at, Grid};
use crate::moves::{capture_spec, get_capture, is_reachable, reachable_spec};
use crate::piece::{piece_char, CastleDirection, PieceKind};
use crate::board::should_promote;
use crate::turn::{Turn, TurnDrop, TurnError, TurnMove};

verus! {

// Character classes of the algebraic grammar.
pub open spec fn spec_piece_of(c: char) -> Option<PieceKind> {
    if c == 'P' {
        Some(PieceKind::Pawn)
    } else if c == 'N' {
        Some(PieceKind::Knight)
    } else if c == 'B' {
        Some(PieceKind::Bishop)
    } else if c == 'R' {
        Some(PieceKind::Rook)
    } else if c == 'Q' {
        Some(PieceKind::Queen)
    } else if c == 'K' {
        Some(PieceKind::King)
    } else {
        None
    }
}

pub open spec fn spec_file_of(c: char) -> Option<u8> {
    if c == 'a' {
        Some(0u8)
    } else if c == 'b' {
        Some(1u8)
    } else if c == 'c' {
        Some(2u8)
    } else if c == 'd' {
        Some(3u8)
    } else if c == 'e' {
        Some(4u8)
    } else if c == 'f' {
        Some(5u8)
    } else if c == 'g' {
        Some(6u8)
    } else if c == 'h' {
        Some(7u8)
    } else {
        None
    }
}

pub open spec fn spec_rank_of(c: char) -> Option<u8> {
    if c == '1' {
        Some(0u8)
    } else if c == '2' {
        Some(1u8)
    } else if c == '3' {
        Some(2u8)
    } else if c == '4' {
        Some(3u8)
    } else if c == '5' {
        Some(4u8)
    } else if c == '6' {
        Some(5u8)
    } else if c == '7' {
        Some(6u8)
    } else if c == '8' {
        Some(7u8)
    } else {
        None
    }
}

pub open spec fn is_capture_char(c: char) -> bool {
    c == 'x' || c == '×' || c == ':'
}

pub open spec fn is_check_char(c: char) -> bool {
    c == '+' || c == '†' || c == '#' || c == '‡'
}

/// A successfully tokenized move notation, before it is resolved against a
/// position.
#[derive(Clone, Copy, PartialEq, Eq, Structural, Debug)]
pub struct ParsedMove {
    pub piece_kind: PieceKind,
    pub from_col: Option<u8>,
    pub from_row: Option<u8>,
    pub capturing: bool,
    pub to: Coord,
    pub promote_to: Option<PieceKind>,
}

/// A successfully tokenized notation.
#[derive(Clone, Copy, PartialEq, Eq, Structural, Debug)]
pub enum ParsedNotation {
    Move(ParsedMove),
    Drop(PieceKind, Coord),
    Castle(CastleDirection),
}

pub open spec fn is_a_castle_notation(cs: Seq<char>) -> bool {
    cs.len() == 5 && (cs[0] == '0' || cs[0] == 'O') && cs[1] == '-' && cs[2] == cs[0] && cs[3]
        == '-' && cs[4] == cs[0]
}

pub open spec fn is_h_castle_notation(cs: Seq<char>) -> bool {
    cs.len() == 3 && (cs[0] == '0' || cs[0] == 'O') && cs[1] == '-' && cs[2] == cs[0]
}

/// Tokenizes the prefix of a move notation (everything before the
/// destination square): an optional piece letter, an optional
/// disambiguating file and/or rank, and an optional capture mark, in that
/// order and nothing else.
pub open spec fn parse_prefix_spec(pre: Seq<char>) -> Option<
    (PieceKind, Option<u8>, Option<u8>, bool),
> {
    let kind = if pre.len() > 0 && spec_piece_of(pre[0]) is Some {
        spec_piece_of(pre[0])->0
    } else {
        PieceKind::Pawn
    };
    let i0: int = if pre.len() > 0 && spec_piece_of(pre[0]) is Some {
        1
    } else {
        0
    };
    let fc = if i0 < pre.len() && spec_file_of(pre[i0]) is Some {
        Some(spec_file_of(pre[i0])->0)
    } else {
        None
    };
    let i1: int = if i0 < pre.len() && spec_file_of(pre[i0]) is Some {
        i0 + 1
    } else {
        i0
    };
    let fr = if i1 < pre.len() && spec_rank_of(pre[i1]) is Some {
        Some(spec_rank_of(pre[i1])->0)
    } else {
        None
    };
    let i2: int = if i1 < pre.len() && spec_rank_of(pre[i1]) is Some {
        i1 + 1
    } else {
        i1
    };
    let cap = i2 < pre.len() && is_capture_char(pre[i2]);
    let i3: int = if i2 < pre.len() && is_capture_char(pre[i2]) {
        i2 + 1
    } else {
        i2
    };
    if i3 == pre.len() {
        Some((kind, fc, fr, cap))
    } else {
        None
    }
}

/// Tokenizes a move notation: prefix, destination square, an optional
/// promotion (`=X`, `/X` or a bare trailing piece letter), and an optional
/// check or mate mark.
pub open spec fn parse_move_spec(cs: Seq<char>) -> Option<ParsedMove> {
    let c1 = if cs.len() > 0 && is_check_char(cs.last()) {
        cs.drop_last()
    } else {
        cs
    };
    let promo = if c1.len() > 0 && spec_piece_of(c1.last()) is Some {
        Some(spec_piece_of(c1.last())->0)
    } else {
        None
    };
    let c2 = if c1.len() > 0 && spec_piece_of(c1.last()) is Some {
        let c1b = c1.drop_last();
        if c1b.len() > 0 && (c1b.last() == '=' || c1b.last() == '/') {
            c1b.drop_last()
        } else {
            c1b
        }
    } else {
        c1
    };
    if c2.len() < 2 {
        None
    } else {
        let file = spec_file_of(c2[c2.len() - 2]);
        let rank = spec_rank_of(c2.last());
        if file is None || rank is None {
            None
        } else {
            let to = Coord { row: rank->0, col: file->0 };
            match parse_prefix_spec(c2.take(c2.len() - 2)) {
                Some(p) => Some(
                    ParsedMove {
                        piece_kind: p.0,
                        from_col: p.1,
                        from_row: p.2,
                        capturing: p.3,
                        to,
                        promote_to: promo,
                    },
                ),
                None => None,
            }
        }
    }
}

pub open spec fn parse_drop_spec(cs: Seq<char>) -> Option<(PieceKind, Coord)> {
    if cs.len() == 4 && spec_piece_of(cs[0]) is Some && cs[1] == '@' && spec_file_of(cs[2]) is Some
        && spec_rank_of(cs[3]) is Some {
        Some((spec_piece_of(cs[0])->0, Coord { row: spec_rank_of(cs[3])->0, col: spec_file_of(cs[2])->0 }))
    } else {
        None
    }
}

/// Tokenizes any notation: castling, a drop, or a move.
pub open spec fn parse_notation_spec(cs: Seq<char>) -> Option<ParsedNotation> {
    if is_a_castle_notation(cs) {
        Some(ParsedNotation::Castle(CastleDirection::ASide))
    } else if is_h_castle_notation(cs) {
        Some(ParsedNotation::Castle(CastleDirection::HSide))
    } else if parse_drop_spec(cs) is Some {
        Some(ParsedNotation::Drop((parse_drop_spec(cs)->0).0, (parse_drop_spec(cs)->0).1))
    } else {
        match parse_move_spec(cs) {
            Some(m) => Some(ParsedNotation::Move(m)),
            None => None,
        }
    }
}

fn piece_of(c: char) -> (r: Option<PieceKind>)
    ensures
        r == spec_piece_of(c),
{
    match c {
        'P' => Some(PieceKind::Pawn),
        'N' => Some(PieceKind::Knight),
        'B' => Some(PieceKind::Bishop),
        'R' => Some(PieceKind::Rook),
        'Q' => Some(PieceKind::Queen),
        'K' => Some(PieceKind::King),
        _ => None,
    }
}

fn file_of(c: char) -> (r: Option<u8>)
    ensures
        r == spec_file_of(c),
{
    match c {
        'a' => Some(0),
        'b' => Some(1),
        'c' => Some(2),
        'd' => Some(3),
        'e' => Some(4),
        'f' => Some(5),
        'g' => Some(6),
        'h' => Some(7),
        _ => None,
    }
}

fn rank_of(c: char) -> (r: Option<u8>)
    ensures
        r == spec_rank_of(c),
{
    match c {
        '1' => Some(0),
        '2' => Some(1),
        '3' => Some(2),
        '4' => Some(3),
        '5' => Some(4),
        '6' => Some(5),
        '7' => Some(6),
        '8' => Some(7),
        _ => None,
    }
}

/// The characters of a string, in order.
#[verifier::loop_isolation(false)]
pub fn str_chars(s: &str) -> (v: Vec<char>)
    ensures
        v@ == s@,
{
    let n = s.unicode_len();
    let mut v: Vec<char> = Vec::new();
    let mut i: usize = 0;
    while i < n
        invariant
            i <= n,
            v@.len() == i,
            forall|j: int| 0 <= j < i ==> v@[j] == s@[j],
        decreases n - i,
    {
        v.push(s.get_char(i));
        i = i + 1;
    }
    assert(v@ =~= s@);
    v
}

/// Tokenizes the prefix (the first `pre_len` characters) of a move
/// notation. Decides `parse_prefix_spec` on that prefix.
#[verifier::rlimit(60)]
fn parse_prefix(cs: &Vec<char>, pre_len: usize) -> (r: Option<
    (PieceKind, Option<u8>, Option<u8>, bool),
>)
    requires
        pre_len <= cs@.len(),
    ensures
        r == parse_prefix_spec(cs@.take(pre_len as int)),
{
    let ghost pre = cs@.take(pre_len as int);
    let mut i: usize = 0;
    let mut piece_kind = PieceKind::Pawn;
    if pre_len > 0 {
        if let Some(p) = piece_of(cs[0]) {
            piece_kind = p;
            i = 1;
        }
    }
    let mut from_col: Option<u8> = None;
    if i < pre_len {
        if let Some(f) = file_of(cs[i]) {
            from_col = Some(f);
            i = i + 1;
        }
    }
    let mut from_row: Option<u8> = None;
    if i < pre_len {
        if let Some(r) = rank_of(cs[i]) {
            from_row = Some(r);
            i = i + 1;
        }
    }
    let mut capturing = false;
    if i < pre_len {
        let c = cs[i];
        if c == 'x' || c == '×' || c == ':' {
            capturing = true;
            i = i + 1;
        }
    }
    if i != pre_len {
        assert(parse_prefix_spec(pre) is None);
        return None;
    }
    assert(parse_prefix_spec(pre) == Some((piece_kind, from_col, from_row, capturing)));
    Some((piece_kind, from_col, from_row, capturing))
}

/// Tokenizes a move notation. Decides `parse_move_spec`.
#[verifier::rlimit(60)]
fn parse_move(cs: &Vec<char>) -> (r: Option<ParsedMove>)
    ensures
        r == parse_move_spec(cs@),
{
    let n = cs.len();
    let mut end = n;
    if end > 0 {
        let c = cs[end - 1];
        if c == '+' || c == '†' || c == '#' || c == '‡' {
            end = end - 1;
        }
    }
    let ghost c1 = if cs@.len() > 0 && is_check_char(cs@.last()) {
        cs@.drop_last()
    } else {
        cs@
    };
    assert(c1 =~= cs@.take(end as int));
    let mut promote_to: Option<PieceKind> = None;
    if end > 0 {
        if let Some(p) = piece_of(cs[end - 1]) {
            promote_to = Some(p);
            end = end - 1;
            if end > 0 && (cs[end - 1] == '=' || cs[end - 1] == '/') {
                end = end - 1;
            }
        }
    }
    let ghost c2 = {
        if c1.len() > 0 && spec_piece_of(c1.last()) is Some {
            let c1b = c1.drop_last();
            if c1b.len() > 0 && (c1b.last() == '=' || c1b.last() == '/') {
                c1b.drop_last()
            } else {
                c1b
            }
        } else {
            c1
        }
    };
    assert(c2 =~= cs@.take(end as int));
    if end < 2 {
        return None;
    }
    let file = file_of(cs[end - 2]);
    let rank = rank_of(cs[end - 1]);
    let (to_col, to_row) = match (file, rank) {
        (Some(f), Some(r)) => (f, r),
        _ => {
            return None;
        },
    };
    let to = Coord { row: to_row, col: to_col };
    let pre_len = end - 2;
    assert(c2.take(c2.len() - 2) =~= cs@.take(pre_len as int));
    match parse_prefix(cs, pre_len) {
        Some(p) => Some(
            ParsedMove {
                piece_kind: p.0,
                from_col: p.1,
                from_row: p.2,
                capturing: p.3,
                to,
                promote_to,
            },
        ),
        None => None,
    }
}

/// Whether two strings hold the same characters.
#[verifier::loop_isolation(false)]
pub fn str_eq(a: &str, b: &str) -> (r: bool)
    ensures
        r == (a@ == b@),
{
    let n = a.unicode_len();
    let m = b.unicode_len();
    if n != m {
        return false;
    }
    let mut i: usize = 0;
    while i < n
        invariant
            i <= n,
            forall|j: int| 0 <= j < i ==> a@[j] == b@[j],
        decreases n - i,
    {
        if a.get_char(i) != b.get_char(i) {
            return false;
        }
        i = i + 1;
    }
    assert(a@ =~= b@);
    true
}

/// Tokenizes a notation string. Decides `parse_notation_spec`.
#[verifier::rlimit(60)]
pub fn parse_notation(cs: &Vec<char>) -> (r: Option<ParsedNotation>)
    ensures
        r == parse_notation_spec(cs@),
{
    let n = cs.len();
    // Castling.
    if n == 5 {
        let c0 = cs[0];
        if (c0 == '0' || c0 == 'O') && cs[1] == '-' && cs[2] == c0 && cs[3] == '-' && cs[4] == c0 {
            return Some(ParsedNotation::Castle(CastleDirection::ASide));
        }
    }
    if n == 3 {
        let c0 = cs[0];
        if (c0 == '0' || c0 == 'O') && cs[1] == '-' && cs[2] == c0 {
            return Some(ParsedNotation::Castle(CastleDirection::HSide));
        }
    }
    // Drops.
    if n == 4 && cs[1] == '@' {
        if let Some(kind) = piece_of(cs[0]) {
            if let Some(col) = file_of(cs[2]) {
                if let Some(row) = rank_of(cs[3]) {
                    return Some(ParsedNotation::Drop(kind, Coord { row, col }));
                }
            }
        }
    }
    assert(parse_drop_spec(cs@) is None);
    // Moves.
    match parse_move(cs) {
        Some(m) => Some(ParsedNotation::Move(m)),
        None => None,
    }
}

} // verus!

// Resolving a tokenized notation against a position.
verus! {

/// A square holding a piece that could make the parsed move: right force
/// and kind, matching any disambiguation, and able to reach the destination
/// with the capture intent the position dictates.
pub open spec fn move_candidate(
    g: crate::grid::GridView,
    force: Force,
    last: Option<Turn>,
    m: ParsedMove,
    from: Coord,
) -> bool {
    &&& from.wf()
    &&& at(g, from) matches Some(p) && p.force == force && p.kind == m.piece_kind
    &&& (m.from_col matches Some(c) ==> from.col == c)
    &&& (m.from_row matches Some(r) ==> from.row == r)
    &&& reachable_spec(g, from, m.to, capture_spec(g, from, m.to, last) is Some)
}

/// Resolution of a tokenized move: the promotion field must match whether
/// the move promotes, exactly one square may qualify, and a capture mark
/// demands an actual capture.
pub open spec fn resolve_move_spec(
    g: crate::grid::GridView,
    force: Force,
    last: Option<Turn>,
    m: ParsedMove,
) -> Result<Turn, TurnError> {
    if (m.promote_to is Some) != crate::board::should_promote_spec(force, m.piece_kind, m.to) {
        Err(TurnError::BadPromotion)
    } else if exists|f1: Coord, f2: Coord|
        move_candidate(g, force, last, m, f1) && move_candidate(g, force, last, m, f2) && f1 != f2 {
        Err(TurnError::AmbiguousNotation)
    } else if !(exists|f: Coord| move_candidate(g, force, last, m, f)) {
        Err(TurnError::Unreachable)
    } else {
        let from = choose|f: Coord| move_candidate(g, force, last, m, f);
        if m.capturing && capture_spec(g, from, m.to, last) is None {
            Err(TurnError::CaptureNotationRequiresCapture)
        } else {
            Ok(Turn::Move(TurnMove { from, to: m.to, promote_to: m.promote_to }))
        }
    }
}

/// What parsing and resolving a notation string yields on a position, for
/// every string and position.
pub open spec fn algebraic_turn_spec(
    g: crate::grid::GridView,
    force: Force,
    last: Option<Turn>,
    cs: Seq<char>,
) -> Result<Turn, TurnError> {
    match parse_notation_spec(cs) {
        None => Err(TurnError::InvalidNotation),
        Some(ParsedNotation::Castle(dir)) => Ok(Turn::Castle(dir)),
        Some(ParsedNotation::Drop(kind, to)) => Ok(Turn::Drop(TurnDrop { piece_kind: kind, to })),
        Some(ParsedNotation::Move(m)) => resolve_move_spec(g, force, last, m),
    }
}

/// Parses a turn from algebraic notation and resolves it against the given
/// position. Decides `algebraic_turn_spec`.
#[verifier::loop_isolation(false)]
#[verifier::rlimit(60)]
pub fn turn_from_algebraic(grid: &Grid, force: Force, last: &Option<Turn>, notation: &str) -> (r:
    Result<Turn, TurnError>)
    requires
        grid.wf(),
        *last matches Some(t) ==> t.wf(),
    ensures
        r == algebraic_turn_spec(grid@, force, *last, notation@),
        r matches Ok(t) ==> t.wf(),
{
    let cs = str_chars(notation);
    let parsed = match parse_notation(&cs) {
        None => {
            return Err(TurnError::InvalidNotation);
        },
        Some(p) => p,
    };
    match parsed {
        ParsedNotation::Castle(dir) => Ok(Turn::Castle(dir)),
        ParsedNotation::Drop(kind, to) => {
            assert(to.wf());
            Ok(Turn::Drop(TurnDrop { piece_kind: kind, to }))
        },
        ParsedNotation::Move(m) => {
            assert(m.to.wf());
            if m.promote_to.is_some() != should_promote(force, m.piece_kind, m.to) {
                return Err(TurnError::BadPromotion);
            }
            let mut found: Option<Coord> = None;
            let mut i: usize = 0;
            while i < 64
                invariant
                    i <= 64,
                    match found {
                        Some(f) => move_candidate(grid@, force, *last, m, f) && f.index() < i
                            && forall|c: Coord|
                            c.wf() && c.index() < i && move_candidate(grid@, force, *last, m, c)
                                ==> c == f,
                        None => forall|c: Coord|
                            c.wf() && c.index() < i ==> !move_candidate(grid@, force, *last, m, c),
                    },
                decreases 64 - i,
            {
                let from = Coord::from_index(i);
                if let Some(piece) = grid.get(from) {
                    if piece.force == force && piece.kind == m.piece_kind {
                        let col_ok = match m.from_col {
                            Some(c) => from.col == c,
                            None => true,
                        };
                        let row_ok = match m.from_row {
                            Some(rr) => from.row == rr,
                            None => true,
                        };
                        if col_ok && row_ok {
                            proof {
                                assert(m.to.wf());
                            }
                            let cap = get_capture(grid, from, m.to, last);
                            if is_reachable(grid, from, m.to, cap.is_some()) {
                                assert(move_candidate(grid@, force, *last, m, from));
                                if let Some(other) = found {
                                    assert(other != from);
                                    return Err(TurnError::AmbiguousNotation);
                                }
                                found = Some(from);
                            }
                        }
                    }
                }
                assert(forall|c: Coord| c.wf() && c.index() == i ==> c == from);
                i = i + 1;
            }
            match found {
                None => Err(TurnError::Unreachable),
                Some(from) => {
                    proof {
                        assert(!(exists|f1: Coord, f2: Coord|
                            move_candidate(grid@, force, *last, m, f1) && move_candidate(
                                grid@,
                                force,
                                *last,
                                m,
                                f2,
                            ) && f1 != f2));
                        let picked = choose|f: Coord| move_candidate(grid@, force, *last, m, f);
                        assert(move_candidate(grid@, force, *last, m, picked));
                        assert(picked == from);
                    }
                    if m.capturing {
                        let cap = get_capture(grid, from, m.to, last);
                        if cap.is_none() {
                            return Err(TurnError::CaptureNotationRequiresCapture);
                        }
                    }
                    Ok(Turn::Move(TurnMove { from, to: m.to, promote_to: m.promote_to }))
                },
            }
        },
    }
}

} // verus!

// Rendering a turn in canonical algebraic notation. The canonical form is
// fully disambiguated: a move always names its source file and rank.
verus! {

pub open spec fn castle_notation_chars(dir: CastleDirection) -> Seq<char> {
    match dir {
        CastleDirection::ASide => seq!['O', '-', 'O', '-', 'O'],
        CastleDirection::HSide => seq!['O', '-', 'O'],
    }
}

pub open spec fn drop_notation_chars(d: TurnDrop) -> Seq<char> {
    seq![piece_char(d.piece_kind), '@', col_char(d.to.col as int), row_char(d.to.row as int)]
}

pub open spec fn move_notation_chars(mv: TurnMove, kind: PieceKind, capturing: bool) -> Seq<
    char,
> {
    (if kind == PieceKind::Pawn {
        Seq::<char>::empty()
    } else {
        seq![piece_char(kind)]
    }) + seq![col_char(mv.from.col as int), row_char(mv.from.row as int)] + (if capturing {
        seq!['x']
    } else {
        Seq::<char>::empty()
    }) + seq![col_char(mv.to.col as int), row_char(mv.to.row as int)] + (match mv.promote_to {
        Some(pt) => seq!['=', piece_char(pt)],
        None => Seq::<char>::empty(),
    })
}

/// The canonical notation of a turn on a position: what the engine records
/// in its turn log and what it would send over the wire.
pub open spec fn turn_notation_chars(
    g: crate::grid::GridView,
    last: Option<Turn>,
    turn: Turn,
) -> Seq<char> {
    match turn {
        Turn::Move(mv) => move_notation_chars(
            mv,
            at(g, mv.from)->0.kind,
            capture_spec(g, mv.from, mv.to, last) is Some,
        ),
        Turn::Drop(d) => drop_notation_chars(d),
        Turn::Castle(dir) => castle_notation_chars(dir),
    }
}

fn append_col_char(s: &mut String, col: u8)
    requires
        col < 8,
    ensures
        final(s)@ == old(s)@ + seq![col_char(col as int)],
{
    match col {
        0 => {
            proof {
                reveal_strlit("a");
            }
            s.append("a");
        },
        1 => {
            proof {
                reveal_strlit("b");
            }
            s.append("b");
        },
        2 => {
            proof {
                reveal_strlit("c");
            }
            s.append("c");
        },
        3 => {
            proof {
                reveal_strlit("d");
            }
            s.append("d");
        },
        4 => {
            proof {
                reveal_strlit("e");
            }
            s.append("e");
        },
        5 => {
            proof {
                reveal_strlit("f");
            }
            s.append("f");
        },
        _ => {
            if col == 6 {
                proof {
                    reveal_strlit("g");
                }
                s.append("g");
            } else {
                proof {
                    reveal_strlit("h");
                }
                s.append("h");
            }
        },
    }
    assert(final(s)@ =~= old(s)@ + seq![col_char(col as int)]);
}

fn append_row_char(s: &mut String, row: u8)
    requires
        row < 8,
    ensures
        final(s)@ == old(s)@ + seq![row_char(row as int)],
{
    match row {
        0 => {
            proof {
                reveal_strlit("1");
            }
            s.append("1");
        },
        1 => {
            proof {
                reveal_strlit("2");
            }
            s.append("2");
        },
        2 => {
            proof {
                reveal_strlit("3");
            }
            s.append("3");
        },
        3 => {
            proof {
                reveal_strlit("4");
            }
            s.append("4");
        },
        4 => {
            proof {
                reveal_strlit("5");
            }
            s.append("5");
        },
        5 => {
            proof {
                reveal_strlit("6");
            }
            s.append("6");
        },
        _ => {
            if row == 6 {
                proof {
                    reveal_strlit("7");
                }
                s.append("7");
            } else {
                proof {
                    reveal_strlit("8");
                }
                s.append("8");
            }
        },
    }
    assert(final(s)@ =~= old(s)@ + seq![row_char(row as int)]);
}

fn append_piece_char(s: &mut String, kind: PieceKind)
    ensures
        final(s)@ == old(s)@ + seq![piece_char(kind)],
{
    match kind {
        PieceKind::Pawn => {
            proof {
                reveal_strlit("P");
            }
            s.append("P");
        },
        PieceKind::Knight => {
            proof {
                reveal_strlit("N");
            }
            s.append("N");
        },
        PieceKind::Bishop => {
            proof {
                reveal_strlit("B");
            }
            s.append("B");
        },
        PieceKind::Rook => {
            proof {
                reveal_strlit("R");
            }
            s.append("R");
        },
        PieceKind::Queen => {
            proof {
                reveal_strlit("Q");
            }
            s.append("Q");
        },
        PieceKind::King => {
            proof {
                reveal_strlit("K");
            }
            s.append("K");
        },
    }
    assert(final(s)@ =~= old(s)@ + seq![piece_char(kind)]);
}

/// Renders a turn in canonical algebraic notation for the given position.
/// Returns nothing only for a move whose source square is empty.
pub fn turn_to_algebraic(grid: &Grid, last: &Option<Turn>, turn: &Turn) -> (r: Option<String>)
    requires
        grid.wf(),
        turn.wf(),
        *last matches Some(t) ==> t.wf(),
    ensures
        match *turn {
            Turn::Move(mv) => (r is Some <==> at(grid@, mv.from) is Some) && (r matches Some(s)
                ==> s@ == turn_notation_chars(grid@, *last, *turn)),
            _ => r matches Some(s) && s@ == turn_notation_chars(grid@, *last, *turn),
        },
{
    match turn {
        Turn::Move(mv) => {
            let piece = match grid.get(mv.from) {
                Some(p) => p,
                None => {
                    return None;
                },
            };
            let capturing = get_capture(grid, mv.from, mv.to, last).is_some();
            let mut s = String::new();
            if piece.kind != PieceKind::Pawn {
                append_piece_char(&mut s, piece.kind);
            }
            append_col_char(&mut s, mv.from.col);
            append_row_char(&mut s, mv.from.row);
            if capturing {
                proof {
                    reveal_strlit("x");
                }
                s.append("x");
            }
            append_col_char(&mut s, mv.to.col);
            append_row_char(&mut s, mv.to.row);
            if let Some(pt) = mv.promote_to {
                proof {
                    reveal_strlit("=");
                }
                s.append("=");
                append_piece_char(&mut s, pt);
            }
            assert(s@ =~= move_notation_chars(*mv, piece.kind, capturing));
            Some(s)
        },
        Turn::Drop(d) => {
            let mut s = String::new();
            append_piece_char(&mut s, d.piece_kind);
            proof {
                reveal_strlit("@");
            }
            s.append("@");
            append_col_char(&mut s, d.to.col);
            append_row_char(&mut s, d.to.row);
            assert(s@ =~= drop_notation_chars(*d));
            Some(s)
        },
        Turn::Castle(dir) => {
            let s = match dir {
                CastleDirection::ASide => {
                    proof {
                        reveal_strlit("O-O-O");
                    }
                    String::from_str("O-O-O")
                },
                CastleDirection::HSide => {
                    proof {
                        reveal_strlit("O-O");
                    }
                    String::from_str("O-O")
                },
            };
            assert(s@ =~= castle_notation_chars(*dir));
            Some(s)
        },
    }
}

} // verus!

// The algebraic round trip: canonical notation parses back to the same turn.
verus! {

/// Inversions between rendered characters and the tokenizer's classes.
proof fn lemma_char_classes()
    ensures
        forall|c: int| 0 <= c < 8 ==> spec_file_of(#[trigger] col_char(c)) == Some(c as u8),
        forall|r: int| 0 <= r < 8 ==> spec_rank_of(#[trigger] row_char(r)) == Some(r as u8),
        forall|k: PieceKind| spec_piece_of(#[trigger] piece_char(k)) == Some(k),
        forall|c: int|
            0 <= c < 8 ==> spec_piece_of(#[trigger] col_char(c)) is None && spec_rank_of(
                col_char(c),
            ) is None && !is_capture_char(col_char(c)) && !is_check_char(col_char(c)) && col_char(
                c,
            ) != 'O' && col_char(c) != '0' && col_char(c) != '@' && col_char(c) != '=' && col_char(
                c,
            ) != '/' && col_char(c) != '-',
        forall|r: int|
            0 <= r < 8 ==> spec_piece_of(#[trigger] row_char(r)) is None && spec_file_of(
                row_char(r),
            ) is None && !is_capture_char(row_char(r)) && !is_check_char(row_char(r)) && row_char(
                r,
            ) != 'O' && row_char(r) != '0' && row_char(r) != '@' && row_char(r) != '=' && row_char(
                r,
            ) != '/' && row_char(r) != '-',
        forall|k: PieceKind|
            spec_file_of(#[trigger] piece_char(k)) is None && spec_rank_of(piece_char(k)) is None
                && !is_capture_char(piece_char(k)) && !is_check_char(piece_char(k)) && piece_char(
                k,
            ) != 'O' && piece_char(k) != '0' && piece_char(k) != '@' && piece_char(k) != '='
                && piece_char(k) != '/' && piece_char(k) != '-',
{
}

/// Tokenizing the canonical notation of a move recovers its parts: the
/// canonical form always names the piece (unless a pawn), the full source
/// square, a capture mark exactly when capturing, the destination and the
/// promotion.
#[verifier::rlimit(100)]
proof fn lemma_tokenize_canonical(mv: TurnMove, kind: PieceKind, capturing: bool)
    requires
        mv.from.wf(),
        mv.to.wf(),
    ensures
        parse_notation_spec(move_notation_chars(mv, kind, capturing)) == Some(
            ParsedNotation::Move(
                ParsedMove {
                    piece_kind: kind,
                    from_col: Some(mv.from.col),
                    from_row: Some(mv.from.row),
                    capturing,
                    to: mv.to,
                    promote_to: mv.promote_to,
                },
            ),
        ),
{
    lemma_char_classes();
    let s = move_notation_chars(mv, kind, capturing);
    let core = (if kind == PieceKind::Pawn {
        Seq::<char>::empty()
    } else {
        seq![piece_char(kind)]
    }) + seq![col_char(mv.from.col as int), row_char(mv.from.row as int)] + (if capturing {
        seq!['x']
    } else {
        Seq::<char>::empty()
    }) + seq![col_char(mv.to.col as int), row_char(mv.to.row as int)];
    assert(s.len() >= 4);
    match mv.promote_to {
        Some(pt) => {
            assert(s =~= core + seq!['=', piece_char(pt)]);
            assert(s.last() == piece_char(pt));
            assert(!is_check_char(s.last()));
            assert(s.drop_last() =~= core + seq!['=']);
            assert(s.drop_last().last() == '=');
            assert(s.drop_last().drop_last() =~= core);
        },
        None => {
            assert(s =~= core);
            assert(s.last() == row_char(mv.to.row as int));
            assert(!is_check_char(s.last()));
            assert(spec_piece_of(s.last()) is None);
        },
    }
    assert(core.len() >= 4);
    assert(core.last() == row_char(mv.to.row as int));
    assert(core[core.len() - 2] == col_char(mv.to.col as int));
    assert(spec_rank_of(core.last()) == Some(mv.to.row));
    assert(spec_file_of(core[core.len() - 2]) == Some(mv.to.col));
    let pre = core.take(core.len() - 2);
    assert(pre =~= (if kind == PieceKind::Pawn {
        Seq::<char>::empty()
    } else {
        seq![piece_char(kind)]
    }) + seq![col_char(mv.from.col as int), row_char(mv.from.row as int)] + (if capturing {
        seq!['x']
    } else {
        Seq::<char>::empty()
    }));
    if kind == PieceKind::Pawn {
        assert(pre[0] == col_char(mv.from.col as int));
        assert(pre[1] == row_char(mv.from.row as int));
        if capturing {
            assert(pre[2] == 'x');
        }
    } else {
        assert(pre[0] == piece_char(kind));
        assert(pre[1] == col_char(mv.from.col as int));
        assert(pre[2] == row_char(mv.from.row as int));
        if capturing {
            assert(pre[3] == 'x');
        }
    }
    assert(parse_prefix_spec(pre) == Some((kind, Some(mv.from.col), Some(mv.from.row), capturing)));
    let m = ParsedMove {
        piece_kind: kind,
        from_col: Some(mv.from.col),
        from_row: Some(mv.from.row),
        capturing,
        to: mv.to,
        promote_to: mv.promote_to,
    };
    assert(parse_move_spec(s) == Some(m));
    assert(s[0] == piece_char(kind) || s[0] == col_char(mv.from.col as int));
    assert(!is_a_castle_notation(s) && !is_h_castle_notation(s));
    assert(s[1] == col_char(mv.from.col as int) || s[1] == row_char(mv.from.row as int));
    assert(parse_drop_spec(s) is None);
    assert(parse_notation_spec(s) == Some(ParsedNotation::Move(m)));
}

/// The algebraic round trip: for every turn a board accepts, the canonical
/// notation of the turn, parsed and resolved against the same position,
/// yields that very turn back. The canonical form names the source square
/// in full, so the resolution is never ambiguous.
#[verifier::rlimit(100)]
pub proof fn lemma_algebraic_round_trip(b: crate::board::Board, turn: Turn)
    requires
        b.wf(),
        turn.wf(),
        crate::board::turn_outcome(b, turn) is Ok,
    ensures
        algebraic_turn_spec(
            b.grid@,
            b.active_force,
            b.last_turn,
            turn_notation_chars(b.grid@, b.last_turn, turn),
        ) == Ok::<Turn, TurnError>(turn),
{
    lemma_char_classes();
    let g = b.grid@;
    let force = b.active_force;
    let last = b.last_turn;
    match turn {
        Turn::Castle(dir) => {
            let s = castle_notation_chars(dir);
            match dir {
                CastleDirection::ASide => {
                    assert(is_a_castle_notation(s));
                },
                CastleDirection::HSide => {
                    assert(!is_a_castle_notation(s));
                    assert(is_h_castle_notation(s));
                },
            }
        },
        Turn::Drop(d) => {
            let s = drop_notation_chars(d);
            assert(!is_a_castle_notation(s) && !is_h_castle_notation(s));
            assert(parse_drop_spec(s) == Some((d.piece_kind, d.to)));
        },
        Turn::Move(mv) => {
            assert(at(g, mv.from) is Some);
            let piece = at(g, mv.from)->0;
            let kind = piece.kind;
            let capturing = capture_spec(g, mv.from, mv.to, last) is Some;
            lemma_tokenize_canonical(mv, kind, capturing);
            let m = ParsedMove {
                piece_kind: kind,
                from_col: Some(mv.from.col),
                from_row: Some(mv.from.row),
                capturing,
                to: mv.to,
                promote_to: mv.promote_to,
            };
            // Resolution: the named source square is the only candidate.
            assert(move_candidate(g, force, last, m, mv.from));
            assert forall|f: Coord| move_candidate(g, force, last, m, f) implies f == mv.from by {
                assert(f.col == mv.from.col && f.row == mv.from.row);
            }
            assert((m.promote_to is Some) == crate::board::should_promote_spec(
                force,
                m.piece_kind,
                m.to,
            ));
            assert(!(exists|f1: Coord, f2: Coord|
                move_candidate(g, force, last, m, f1) && move_candidate(g, force, last, m, f2)
                    && f1 != f2));
            let from = choose|f: Coord| move_candidate(g, force, last, m, f);
            assert(from == mv.from);
            assert(resolve_move_spec(g, force, last, m) == Ok::<Turn, TurnError>(turn));
        },
    }
}

} // verus!
