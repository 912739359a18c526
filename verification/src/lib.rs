//! A falling-block puzzle engine: the playfield, the pieces and their motion,
//! the shuffled bag that deals them, the per-tick state machine with scoring
//! and levels, and the score board that outlives a session.

pub mod bag;
pub mod game;
pub mod grid;
pub mod input;
pub mod leaderboard;
pub mod scoring;
pub mod tetromino;
pub mod vec2;
