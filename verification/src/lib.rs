//! A two-competitor grid duel: each side privately authors a short sequence
//! of moves (advance a token, plant a trap) on an `n x n` board, and a
//! deterministic engine replays both sequences simultaneously to decide who
//! advances, who is eliminated, and who scores.

pub mod board;
pub mod engine;
pub mod grid;
pub mod laws;
pub mod roster;
pub mod session;
