//! Core of a two-player Stratego-style board game: the board, the move and
//! combat rules, the setup roster check and a store of live game sessions.
pub mod board;
mod ids;
pub mod piece;
pub mod rules;
pub mod setup;
pub mod store;

pub use piece::{Piece, PieceType, Side};
