//! A small arcade game's core: a player circle that follows the cursor,
//! absorbs circles of its own colour, collects power-up triangles that act as
//! colour swaps and shields, and scores over a timed session.
//!
//! All quantities are fixed-point integers: lengths in thousandths of a
//! pixel, durations in milliseconds, difficulty in tenths, score in
//! millionths of a point.
pub mod arith;
pub mod entities;
pub mod rules;
pub mod music;
pub mod game;
pub mod laws;
mod random;
