use vstd::prelude::*;

use crate::board::{DrawReason, VictoryReason};
use crate::force::Force;
use crate::game::{
    get_bughouse_force, BughouseBoard, BughouseGame, BughouseGameStatus, BughousePlayerId, Team,
};
use crate::clock::TimeControl;

verus! {

/// Export options. Time annotations are not exported yet.
#[derive(Clone, Copy, PartialEq, Eq, Structural, Debug)]
pub struct BughouseExportFormat {}

pub const LINE_WIDTH: usize = 80;

/// Saturation at the machine word, for line length bookkeeping.
pub open spec fn usat(v: int) -> int {
    if v <= usize::MAX {
        v
    } else {
        usize::MAX as int
    }
}

/// A plain-text document of space-separated words, soft-wrapped at
/// `LINE_WIDTH` columns.
pub struct TextDocument {
    pub text: String,
    pub last_line_len: usize,
}

impl TextDocument {
    pub fn new() -> (r: TextDocument)
        ensures
            r.text@.len() == 0,
            r.last_line_len == 0,
    {
        TextDocument { text: String::new(), last_line_len: 0 }
    }

    /// Appends a word: after the first word on a line, a space goes before
    /// it when it fits in the line width, else a line break.
    pub fn push_word(&mut self, word: &str)
        ensures
            ({
                let w = word@.len();
                if old(self).last_line_len == 0 {
                    final(self).text@ == old(self).text@ + word@ && final(self).last_line_len
                        == usat(old(self).last_line_len + w)
                } else if old(self).last_line_len + w + 1 <= LINE_WIDTH {
                    final(self).text@ == old(self).text@ + seq![' '] + word@
                        && final(self).last_line_len == usat(old(self).last_line_len + 1 + w)
                } else {
                    final(self).text@ == old(self).text@ + seq!['\n'] + word@
                        && final(self).last_line_len == usat(w as int)
                }
            }),
    {
        let word_len = word.unicode_len();
        proof {
            assert(word@.len() <= usize::MAX);
        }
        if self.last_line_len == 0 {
            // No separator before the first word.
        } else if self.last_line_len <= LINE_WIDTH && word_len <= LINE_WIDTH
            && self.last_line_len + word_len + 1 <= LINE_WIDTH {
            proof {
                reveal_strlit(" ");
            }
            self.text.append(" ");
            self.last_line_len = self.last_line_len + 1;
        } else {
            proof {
                reveal_strlit("\n");
            }
            self.text.append("\n");
            self.last_line_len = 0;
        }
        self.text.append(word);
        self.last_line_len = if self.last_line_len <= usize::MAX - word_len {
            self.last_line_len + word_len
        } else {
            usize::MAX
        };
    }

    /// The document with a trailing newline when the last line is not
    /// empty.
    pub fn render(&self) -> (r: String)
        ensures
            r@ == if self.last_line_len > 0 {
                self.text@ + seq!['\n']
            } else {
                self.text@
            },
    {
        let mut out = self.text.clone();
        if self.last_line_len > 0 {
            proof {
                reveal_strlit("\n");
            }
            out.append("\n");
        }
        out
    }
}

/// The clock setting as it appears in the TimeControl header: whole
/// seconds.
pub fn time_control_to_string(control: &TimeControl) -> (r: String)
    ensures
        r@ == dec_chars((control.starting_time_ms / 1000) as nat),
{
    u64_to_string(control.starting_time_ms / 1000)
}

/// Decimal digits of a number.
pub open spec fn dec_chars(v: nat) -> Seq<char>
    decreases v,
{
    if v < 10 {
        seq![digit_char(v as int)]
    } else {
        dec_chars(v / 10) + seq![digit_char((v % 10) as int)]
    }
}

pub open spec fn digit_char(d: int) -> char {
    if d == 0 {
        '0'
    } else if d == 1 {
        '1'
    } else if d == 2 {
        '2'
    } else if d == 3 {
        '3'
    } else if d == 4 {
        '4'
    } else if d == 5 {
        '5'
    } else if d == 6 {
        '6'
    } else if d == 7 {
        '7'
    } else if d == 8 {
        '8'
    } else {
        '9'
    }
}

fn append_digit(s: &mut String, d: u64)
    requires
        d < 10,
    ensures
        final(s)@ == old(s)@ + seq![digit_char(d as int)],
{
    match d {
        0 => {
            proof {
                reveal_strlit("0");
            }
            s.append("0");
        },
        1 => {
            proof {
                reveal_strlit("1");
            }
            s.append("1");
        },
        2 => {
            proof {
                reveal_strlit("2");
            }
            s.append("2");
        },
        3 => {
            proof {
                reveal_strlit("3");
            }
            s.append("3");
        },
        4 => {
            proof {
                reveal_strlit("4");
            }
            s.append("4");
        },
        5 => {
            proof {
                reveal_strlit("5");
            }
            s.append("5");
        },
        6 => {
            proof {
                reveal_strlit("6");
            }
            s.append("6");
        },
        7 => {
            proof {
                reveal_strlit("7");
            }
            s.append("7");
        },
        8 => {
            proof {
                reveal_strlit("8");
            }
            s.append("8");
        },
        _ => {
            proof {
                reveal_strlit("9");
            }
            s.append("9");
        },
    }
    assert(final(s)@ =~= old(s)@ + seq![digit_char(d as int)]);
}

/// Appends the decimal digits of `v`.
pub fn append_u64(s: &mut String, v: u64)
    ensures
        final(s)@ == old(s)@ + dec_chars(v as nat),
    decreases v,
{
    if v < 10 {
        append_digit(s, v);
    } else {
        append_u64(s, v / 10);
        append_digit(s, v % 10);
        assert(final(s)@ =~= old(s)@ + dec_chars(v as nat));
    }
}

pub fn u64_to_string(v: u64) -> (r: String)
    ensures
        r@ == dec_chars(v as nat),
{
    let mut s = String::new();
    append_u64(&mut s, v);
    assert(s@ =~= dec_chars(v as nat));
    s
}

/// The Result header: `1-0` when Red won, `0-1` when Blue won, `1/2-1/2`
/// for a draw, `*` for an unfinished game.
pub open spec fn result_chars(status: BughouseGameStatus) -> Seq<char> {
    match status {
        BughouseGameStatus::Active => seq!['*'],
        BughouseGameStatus::Victory(Team::Red, _) => seq!['1', '-', '0'],
        BughouseGameStatus::Victory(Team::Blue, _) => seq!['0', '-', '1'],
        BughouseGameStatus::Draw(_) => seq!['1', '/', '2', '-', '1', '/', '2'],
    }
}

pub fn make_result_string(game: &BughouseGame) -> (r: String)
    ensures
        r@ == result_chars(game.status),
{
    let r = match game.status() {
        BughouseGameStatus::Active => {
            proof {
                reveal_strlit("*");
            }
            String::from_str("*")
        },
        BughouseGameStatus::Victory(Team::Red, _) => {
            proof {
                reveal_strlit("1-0");
            }
            String::from_str("1-0")
        },
        BughouseGameStatus::Victory(Team::Blue, _) => {
            proof {
                reveal_strlit("0-1");
            }
            String::from_str("0-1")
        },
        BughouseGameStatus::Draw(_) => {
            proof {
                reveal_strlit("1/2-1/2");
            }
            String::from_str("1/2-1/2")
        },
    };
    assert(r@ =~= result_chars(game.status));
    r
}

/// The name of the player in a seat, or nothing for an empty seat.
pub fn seat_name(game: &BughouseGame, id: BughousePlayerId) -> (r: String)
    ensures
        (exists|j: int|
            0 <= j < game.players@.len() && game.players@[j].id == id && game.players@[j].name@
                == r@) || (r@.len() == 0 && forall|j: int|
            0 <= j < game.players@.len() ==> game.players@[j].id != id),
{
    match game.player_name(id) {
        Some(name) => name.clone(),
        None => String::new(),
    }
}

/// How a termination is described, before the winners' names.
pub fn make_termination_string(game: &BughouseGame) -> (r: String)
{
    match game.status() {
        BughouseGameStatus::Active => {
            String::from_str("Unterminated")
        },
        BughouseGameStatus::Victory(team, reason) => {
            let mut s = seat_name(game, BughousePlayerId {
                board_idx: BughouseBoard::A,
                force: get_bughouse_force(team, BughouseBoard::A),
            });
            s.append(" & ");
            let ally = seat_name(game, BughousePlayerId {
                board_idx: BughouseBoard::B,
                force: get_bughouse_force(team, BughouseBoard::B),
            });
            s.append(ally.as_str());
            match reason {
                VictoryReason::Checkmate => s.append(" won by checkmate"),
                VictoryReason::Flag => s.append(" won by flag"),
                VictoryReason::Resignation => s.append(" won by resignation"),
            }
            s
        },
        BughouseGameStatus::Draw(DrawReason::SimultaneousFlag) => {
            String::from_str("Draw by simultaneous flags")
        },
        BughouseGameStatus::Draw(DrawReason::ThreefoldRepetition) => {
            String::from_str("Draw by threefold repetition")
        },
    }
}

/// The board tag of a turn in the BPGN body: uppercase for White.
pub open spec fn player_notation_chars(player_id: BughousePlayerId) -> Seq<char> {
    match (player_id.board_idx, player_id.force) {
        (BughouseBoard::A, Force::White) => seq!['A'],
        (BughouseBoard::A, Force::Black) => seq!['a'],
        (BughouseBoard::B, Force::White) => seq!['B'],
        (BughouseBoard::B, Force::Black) => seq!['b'],
    }
}

pub fn player_notation(player_id: BughousePlayerId) -> (r: String)
    ensures
        r@ == player_notation_chars(player_id),
{
    let r = match (player_id.board_idx, player_id.force) {
        (BughouseBoard::A, Force::White) => {
            proof {
                reveal_strlit("A");
            }
            String::from_str("A")
        },
        (BughouseBoard::A, Force::Black) => {
            proof {
                reveal_strlit("a");
            }
            String::from_str("a")
        },
        (BughouseBoard::B, Force::White) => {
            proof {
                reveal_strlit("B");
            }
            String::from_str("B")
        },
        (BughouseBoard::B, Force::Black) => {
            proof {
                reveal_strlit("b");
            }
            String::from_str("b")
        },
    };
    assert(r@ =~= player_notation_chars(player_id));
    r
}

/// A date and time in UTC, as plain values.
#[derive(Clone, Copy, PartialEq, Eq, Structural, Debug)]
pub struct UtcDateTime {
    pub year: i32,
    pub month: u8,
    pub day: u8,
    pub hour: u8,
    pub minute: u8,
    pub second: u8,
}

/// Relies on time::OffsetDateTime::now_utc and its accessors (year, month,
/// day, hour, minute, second), which document these ranges; the value
/// itself is the wall clock's and nothing more is assumed of it.
#[verifier::external_body]
pub fn utc_now() -> (r: UtcDateTime)
    ensures
        1 <= r.month <= 12,
        1 <= r.day <= 31,
        r.hour < 24,
        r.minute < 60,
        r.second < 60,
{
    let now = time::OffsetDateTime::now_utc();
    UtcDateTime {
        year: now.year(),
        month: u8::from(now.month()),
        day: now.day(),
        hour: now.hour(),
        minute: now.minute(),
        second: now.second(),
    }
}

/// Two decimal digits, zero-padded.
pub open spec fn two_digit_chars(v: int) -> Seq<char> {
    seq![digit_char(v / 10 % 10), digit_char(v % 10)]
}

fn append_two_digits(s: &mut String, v: u8)
    requires
        v < 100,
    ensures
        final(s)@ == old(s)@ + two_digit_chars(v as int),
{
    append_digit_u8(s, v / 10);
    append_digit_u8(s, v % 10);
    assert(final(s)@ =~= old(s)@ + two_digit_chars(v as int));
}

fn append_digit_u8(s: &mut String, d: u8)
    requires
        d < 10,
    ensures
        final(s)@ == old(s)@ + seq![digit_char(d as int)],
{
    append_digit(s, d as u64);
}

/// `YYYY.MM.DD`, for the UTCDate header. A year before the common era is
/// written as zero.
pub fn format_utc_date(dt: &UtcDateTime) -> (r: String)
    requires
        1 <= dt.month <= 12,
        1 <= dt.day <= 31,
    ensures
        r@ == dec_chars((if dt.year >= 0 {
            dt.year as int
        } else {
            0
        }) as nat) + seq!['.'] + two_digit_chars(dt.month as int) + seq!['.'] + two_digit_chars(
            dt.day as int,
        ),
{
    let mut s = String::new();
    let year: u64 = if dt.year >= 0 {
        dt.year as u64
    } else {
        0
    };
    append_u64(&mut s, year);
    proof {
        reveal_strlit(".");
    }
    s.append(".");
    append_two_digits(&mut s, dt.month);
    s.append(".");
    append_two_digits(&mut s, dt.day);
    assert(s@ =~= dec_chars((if dt.year >= 0 {
        dt.year as int
    } else {
        0
    }) as nat) + seq!['.'] + two_digit_chars(dt.month as int) + seq!['.'] + two_digit_chars(
        dt.day as int,
    ));
    s
}

/// `HH:MM:SS`, for the UTCTime header.
pub fn format_utc_time(dt: &UtcDateTime) -> (r: String)
    requires
        dt.hour < 24,
        dt.minute < 60,
        dt.second < 60,
    ensures
        r@ == two_digit_chars(dt.hour as int) + seq![':'] + two_digit_chars(dt.minute as int)
            + seq![':'] + two_digit_chars(dt.second as int),
{
    let mut s = String::new();
    append_two_digits(&mut s, dt.hour);
    proof {
        reveal_strlit(":");
    }
    s.append(":");
    append_two_digits(&mut s, dt.minute);
    s.append(":");
    append_two_digits(&mut s, dt.second);
    assert(s@ =~= two_digit_chars(dt.hour as int) + seq![':'] + two_digit_chars(dt.minute as int)
        + seq![':'] + two_digit_chars(dt.second as int));
    s
}

/// The BPGN headers: event and site, the UTC date and time, the round, the
/// four player names, the time control, the variant with a FEN set-up line
/// for Fischer random games, the result and the termination.
pub fn make_bughouse_bpgn_header(game: &BughouseGame, round: u64, now: &UtcDateTime) -> (r: String)
    requires
        1 <= now.month <= 12,
        1 <= now.day <= 31,
        now.hour < 24,
        now.minute < 60,
        now.second < 60,
{
    let mut s = String::new();
    s.append("[Event \"Friendly Bughouse Match\"]\n");
    s.append("[Site \"bughouse.pro\"]\n");
    s.append("[UTCDate \"");
    let date = format_utc_date(now);
    s.append(date.as_str());
    s.append("\"]\n[UTCTime \"");
    let time_str = format_utc_time(now);
    s.append(time_str.as_str());
    s.append("\"]\n[Round \"");
    let round_str = u64_to_string(round);
    s.append(round_str.as_str());
    s.append("\"]\n[WhiteA \"");
    let name = seat_name(game, BughousePlayerId { board_idx: BughouseBoard::A, force: Force::White });
    s.append(name.as_str());
    s.append("\"]\n[BlackA \"");
    let name = seat_name(game, BughousePlayerId { board_idx: BughouseBoard::A, force: Force::Black });
    s.append(name.as_str());
    s.append("\"]\n[WhiteB \"");
    let name = seat_name(game, BughousePlayerId { board_idx: BughouseBoard::B, force: Force::White });
    s.append(name.as_str());
    s.append("\"]\n[BlackB \"");
    let name = seat_name(game, BughousePlayerId { board_idx: BughouseBoard::B, force: Force::Black });
    s.append(name.as_str());
    s.append("\"]\n[TimeControl \"");
    let tc = time_control_to_string(&game.chess_rules().time_control);
    s.append(tc.as_str());
    s.append("\"]\n[Variant \"");
    match game.chess_rules().starting_position {
        crate::rules::StartingPosition::Classic => {
            s.append("Bughouse");
        },
        crate::rules::StartingPosition::FischerRandom => {
            s.append("Bughouse Chess960");
        },
    }
    s.append("\"]\n[SetUp \"1\"]\n[Result \"");
    let result = make_result_string(game);
    s.append(result.as_str());
    s.append("\"]\n[Termination \"");
    let termination = make_termination_string(game);
    s.append(termination.as_str());
    s.append("\"]\n");
    s
}

/// Exports a game to BPGN (bughouse portable game notation): the headers,
/// then the logged turns as `<number><board-tag>. <algebraic>` words,
/// soft-wrapped at eighty columns.
pub fn export_to_bpgn(_format: BughouseExportFormat, game: &BughouseGame, round: u64) -> (r:
    String)
{
    let now = utc_now();
    let header = make_bughouse_bpgn_header(game, round, &now);
    let mut doc = TextDocument::new();
    let mut full_turn_idx_a: u64 = 1;
    let mut full_turn_idx_b: u64 = 1;
    let log = game.turn_log();
    let mut i: usize = 0;
    while i < log.len()
        invariant
            i <= log@.len(),
            *log == game.turn_log,
        decreases log@.len() - i,
    {
        let record = &log[i];
        let full_turn_idx = match record.player_id.board_idx {
            BughouseBoard::A => full_turn_idx_a,
            BughouseBoard::B => full_turn_idx_b,
        };
        let mut word = u64_to_string(full_turn_idx);
        let tag = player_notation(record.player_id);
        word.append(tag.as_str());
        proof {
            reveal_strlit(". ");
        }
        word.append(". ");
        word.append(record.turn_expanded.algebraic.as_str());
        doc.push_word(word.as_str());
        if record.player_id.force == Force::Black {
            match record.player_id.board_idx {
                BughouseBoard::A => {
                    full_turn_idx_a = if full_turn_idx_a < u64::MAX {
                        full_turn_idx_a + 1
                    } else {
                        full_turn_idx_a
                    };
                },
                BughouseBoard::B => {
                    full_turn_idx_b = if full_turn_idx_b < u64::MAX {
                        full_turn_idx_b + 1
                    } else {
                        full_turn_idx_b
                    };
                },
            }
        }
        i = i + 1;
    }
    let mut out = header;
    let body = doc.render();
    out.append(body.as_str());
    out
}

} // verus!
