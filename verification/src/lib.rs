//! A grid-based snake simulation: buffered steering, per-tick movement,
//! collision detection, growth and food placement.

pub mod engine;
pub mod food;
pub mod geometry;
pub mod input;
pub mod laws;
pub mod random;
pub mod snake;
