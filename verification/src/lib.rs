//! A two-player chess engine: board representation, pseudo-legal move
//! generation per piece type, turn and capture bookkeeping, check detection,
//! and a tiered computer opponent (random, greedy, minimax with alpha-beta).
//!
//! Win detection is by king capture, not checkmate; castling, en passant,
//! pawn promotion and draw detection are deliberately absent.

pub mod ai;
pub mod board;
pub mod history;
pub mod piece;
pub mod state;
pub mod utils;
