//! A grid-based snake game: the world model, the segment chain, the per-tick
//! simulation step, the input latch and the frame pacing rule.

pub mod chain;
pub mod geometry;
pub mod grid;
pub mod game;
pub mod input;
pub mod schedule;
