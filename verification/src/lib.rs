//! Core engine for a two-board, four-player bughouse chess variant:
//! single-board rules (movement, check, mate, castling, drops, promotions,
//! algebraic notation), the two-board game with capture routing, and the
//! client-side speculation layer that overlays local turns on the
//! server-confirmed game.

pub mod algebraic;
pub mod altered_game;
pub mod board;
pub mod clock;
pub mod client;
pub mod coord;
pub mod display;
pub mod event;
pub mod force;
pub mod game;
pub mod grid;
pub mod moves;
pub mod pgn;
pub mod piece;
pub mod rules;
pub mod starting;
pub mod turn;
