//! Core of a rhythm game: a resettable clock, a spawn schedule consumed
//! against that clock, arrow movement with post-target visual decay, timing
//! judgement of player input, and score accumulation.
//!
//! Times are measured in milliseconds and positions in thousandths of a
//! pixel, so every quantity is an exact integer.

pub mod arrows;
pub mod audio;
pub mod consts;
pub mod map_maker;
pub mod score;
pub mod time;
pub mod types;
