//! A chess position model and legal-move generation engine.
//!
//! The `board` module holds the verified core: a board representation,
//! per-piece movement rules, check detection, castling state tracking and
//! en-passant tracking, together with an operation that enumerates every
//! legal move from a position and one that applies a chosen move in place.
//! The `evaluation` module scores positions through the same interface.

pub mod board;
pub mod evaluation;
