//! A turn-based survival simulation on a square grid.
//!
//! Players move, turn, eat, build walls, scan their line of sight and kill
//! each other while an energy economy wears them down until the generation
//! ends. The board, the entity arenas and the per-tick resolution pipeline
//! are verified against the model in [`board::SimView`].

pub mod config;
pub mod players;
pub mod common;
pub mod board;
pub mod actions;
pub mod scheduler;
pub mod random;
pub mod laws;
