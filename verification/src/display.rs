use vstd::prelude::*;

use crate::coord::{Coord, NUM_COLS, NUM_ROWS};
use crate::force::Force;
use crate::game::{BughouseBoard, BughouseParticipantId};

verus! {

/// A board as shown to a participant: their own board, or the partner one.
#[derive(Clone, Copy, PartialEq, Eq, Structural, Debug)]
pub enum DisplayBoard {
    Primary,
    Secondary,
}

#[derive(Clone, Copy, PartialEq, Eq, Structural, Debug)]
pub enum DisplayPlayer {
    Top,
    Bottom,
}

#[derive(Clone, Copy, PartialEq, Eq, Structural, Debug)]
pub enum Perspective {
    PlayAsWhite,
    PlayAsBlack,
}

/// Which colour sits at the bottom of a rendered board.
#[derive(Clone, Copy, PartialEq, Eq, Structural, Debug)]
pub enum BoardOrientation {
    Normal,
    Rotated,
}

/// Screen coordinates of a square: `(0, 0)` is the top left square,
/// whatever the orientation.
#[derive(Clone, Copy, PartialEq, Eq, Structural, Debug)]
pub struct DisplayCoord {
    pub x: u8,
    pub y: u8,
}

impl Perspective {
    pub fn for_force(force: Force) -> (r: Perspective)
        ensures
            r == match force {
                Force::White => Perspective::PlayAsWhite,
                Force::Black => Perspective::PlayAsBlack,
            },
    {
        match force {
            Force::White => Perspective::PlayAsWhite,
            Force::Black => Perspective::PlayAsBlack,
        }
    }
}

pub fn get_board_index(board: DisplayBoard, viewer: BughouseParticipantId) -> (r: BughouseBoard)
    ensures
        r == match board {
            DisplayBoard::Primary => viewer.spec_visual_board_idx(),
            DisplayBoard::Secondary => viewer.spec_visual_board_idx().spec_other(),
        },
{
    match board {
        DisplayBoard::Primary => viewer.visual_board_idx(),
        DisplayBoard::Secondary => viewer.visual_board_idx().other(),
    }
}

pub fn get_display_board_index(board: BughouseBoard, viewer: BughouseParticipantId) -> (r:
    DisplayBoard)
    ensures
        r == if viewer.spec_visual_board_idx() == board {
            DisplayBoard::Primary
        } else {
            DisplayBoard::Secondary
        },
{
    if viewer.visual_board_idx() == board {
        DisplayBoard::Primary
    } else {
        DisplayBoard::Secondary
    }
}

pub fn get_board_orientation(board: DisplayBoard, perspective: Perspective) -> (r:
    BoardOrientation)
    ensures
        r == match (board, perspective) {
            (DisplayBoard::Primary, Perspective::PlayAsWhite) => BoardOrientation::Normal,
            (DisplayBoard::Secondary, Perspective::PlayAsBlack) => BoardOrientation::Normal,
            _ => BoardOrientation::Rotated,
        },
{
    match (board, perspective) {
        (DisplayBoard::Primary, Perspective::PlayAsWhite) => BoardOrientation::Normal,
        (DisplayBoard::Secondary, Perspective::PlayAsBlack) => BoardOrientation::Normal,
        _ => BoardOrientation::Rotated,
    }
}

pub fn get_display_player(force: Force, orientation: BoardOrientation) -> (r: DisplayPlayer)
    ensures
        r == match (orientation, force) {
            (BoardOrientation::Normal, Force::White) => DisplayPlayer::Bottom,
            (BoardOrientation::Rotated, Force::Black) => DisplayPlayer::Bottom,
            _ => DisplayPlayer::Top,
        },
{
    match (orientation, force) {
        (BoardOrientation::Normal, Force::White) => DisplayPlayer::Bottom,
        (BoardOrientation::Rotated, Force::Black) => DisplayPlayer::Bottom,
        _ => DisplayPlayer::Top,
    }
}

pub fn to_display_coord(coord: Coord, orientation: BoardOrientation) -> (r: DisplayCoord)
    requires
        coord.wf(),
    ensures
        r == match orientation {
            BoardOrientation::Normal => DisplayCoord {
                x: coord.col,
                y: (7 - coord.row) as u8,
            },
            BoardOrientation::Rotated => DisplayCoord {
                x: (7 - coord.col) as u8,
                y: coord.row,
            },
        },
{
    match orientation {
        BoardOrientation::Normal => DisplayCoord {
            x: coord.col,
            y: NUM_ROWS - coord.row - 1,
        },
        BoardOrientation::Rotated => DisplayCoord {
            x: NUM_COLS - coord.col - 1,
            y: coord.row,
        },
    }
}

pub fn from_display_row(y: u8, orientation: BoardOrientation) -> (r: u8)
    requires
        y < 8,
    ensures
        r < 8,
        r == match orientation {
            BoardOrientation::Normal => 7 - y,
            BoardOrientation::Rotated => y as int,
        },
{
    match orientation {
        BoardOrientation::Normal => NUM_ROWS - y - 1,
        BoardOrientation::Rotated => y,
    }
}

pub fn from_display_col(x: u8, orientation: BoardOrientation) -> (r: u8)
    requires
        x < 8,
    ensures
        r < 8,
        r == match orientation {
            BoardOrientation::Normal => x as int,
            BoardOrientation::Rotated => 7 - x,
        },
{
    match orientation {
        BoardOrientation::Normal => x,
        BoardOrientation::Rotated => NUM_COLS - x - 1,
    }
}

/// Inverse of `to_display_coord`.
pub fn from_display_coord(q: DisplayCoord, orientation: BoardOrientation) -> (r: Coord)
    requires
        q.x < 8,
        q.y < 8,
    ensures
        r.wf(),
        to_display_coord_spec(r, orientation) == q,
{
    Coord {
        row: from_display_row(q.y, orientation),
        col: from_display_col(q.x, orientation),
    }
}

/// The screen coordinates of a square.
pub open spec fn to_display_coord_spec(coord: Coord, orientation: BoardOrientation) -> DisplayCoord {
    match orientation {
        BoardOrientation::Normal => DisplayCoord { x: coord.col, y: (7 - coord.row) as u8 },
        BoardOrientation::Rotated => DisplayCoord { x: (7 - coord.col) as u8, y: coord.row },
    }
}

} // verus!
