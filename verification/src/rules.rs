use vstd::prelude::*;

use crate::clock::TimeControl;

verus! {

#[derive(Clone, Copy, PartialEq, Eq, Structural, Debug)]
pub enum StartingPosition {
    Classic,
    /// Also known as Chess960.
    FischerRandom,
}

/// How aggressive a piece drop is allowed to be towards the opponent king.
#[derive(Clone, Copy, PartialEq, Eq, Structural, Debug)]
pub enum DropAggression {
    NoCheck,
    NoChessMate,
    NoBughouseMate,
    MateAllowed,
}

#[derive(Clone, Copy, PartialEq, Eq, Structural, Debug)]
pub struct ChessRules {
    pub starting_position: StartingPosition,
    pub time_control: TimeControl,
}

/// Bughouse-specific rules. Pawn drop rows are subjective one-based ranks
/// (1 is the dropping player's own back rank).
#[derive(Clone, Copy, PartialEq, Eq, Structural, Debug)]
pub struct BughouseRules {
    pub min_pawn_drop_row: u8,
    pub max_pawn_drop_row: u8,
    pub drop_aggression: DropAggression,
}

impl BughouseRules {
    pub open spec fn wf(self) -> bool {
        1 <= self.min_pawn_drop_row && self.min_pawn_drop_row <= self.max_pawn_drop_row
            && self.max_pawn_drop_row <= 8
    }

    /// The bughouse rule set popularised by chess.com: pawns may not be
    /// dropped on either back rank.
    pub fn chess_com() -> (r: BughouseRules)
        ensures
            r == (BughouseRules {
                min_pawn_drop_row: 2,
                max_pawn_drop_row: 7,
                drop_aggression: DropAggression::MateAllowed,
            }),
            r.wf(),
    {
        BughouseRules {
            min_pawn_drop_row: 2,
            max_pawn_drop_row: 7,
            drop_aggression: DropAggression::MateAllowed,
        }
    }
}

impl ChessRules {
    /// Classic starting position with a five-minute clock.
    pub fn classic_blitz() -> (r: ChessRules)
        ensures
            r == (ChessRules {
                starting_position: StartingPosition::Classic,
                time_control: TimeControl { starting_time_ms: 300000 },
            }),
    {
        ChessRules {
            starting_position: StartingPosition::Classic,
            time_control: TimeControl { starting_time_ms: 300000 },
        }
    }
}

} // verus!
