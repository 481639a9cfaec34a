use vstd::prelude::*;

use crate::clock::GameInstant;
use crate::game::{BughouseGameStatus, PlayerInGame, Team};
use crate::rules::{BughouseRules, ChessRules};
use crate::starting::EffectiveStartingPosition;

verus! {

/// A player waiting in the lobby.
#[derive(Clone, Debug)]
pub struct LobbyPlayer {
    pub name: String,
    pub team: Team,
}

/// The two teams' match scores.
#[derive(Clone, Copy, PartialEq, Eq, Structural, Debug)]
pub struct Scores {
    pub red: u32,
    pub blue: u32,
}

/// One confirmed turn as the server announces it.
#[derive(Clone, Debug)]
pub struct TurnRecord {
    pub player_name: String,
    pub turn_algebraic: String,
    pub time: GameInstant,
    pub game_status: BughouseGameStatus,
    pub scores: Scores,
}

/// What a client sends to the server.
#[derive(Clone, Debug)]
pub enum BughouseClientEvent {
    Join { player_name: String, team: Team },
    MakeTurn { turn_algebraic: String },
    Resign,
    NextGame,
    Leave,
    Reset,
}

/// What the server sends to a client.
#[derive(Clone, Debug)]
pub enum BughouseServerEvent {
    Error { message: String },
    LobbyUpdated { players: Vec<LobbyPlayer> },
    GameStarted {
        chess_rules: ChessRules,
        bughouse_rules: BughouseRules,
        starting_position: EffectiveStartingPosition,
        players: Vec<PlayerInGame>,
        time: GameInstant,
        turn_log: Vec<TurnRecord>,
        scores: Scores,
    },
    TurnsMade(Vec<TurnRecord>),
    GameOver { time: GameInstant, game_status: BughouseGameStatus, scores: Scores },
}

} // verus!
