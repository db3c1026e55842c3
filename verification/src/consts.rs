//! Tunable constants of the game, and the top-level application states.
//!
//! Positions are in thousandths of a pixel ("millipixels") and times in
//! milliseconds, so that all of the engine's arithmetic is exact.

use vstd::prelude::*;

verus! {

/// Speed at which a slow arrow moves, in pixels per second. A pixel per
/// second is one millipixel per millisecond, so this is also the distance in
/// millipixels that a slow arrow covers per millisecond.
pub const BASE_SPEED: i64 = 200;

/// X coordinate at which arrows spawn, in millipixels. Off-screen.
pub const SPAWN_POSITION: i64 = -400_000;

/// X coordinate where the arrows should be clicked, in millipixels.
pub const TARGET_POSITION: i64 = 200_000;

/// Margin of error for clicking an arrow, in millipixels.
pub const THRESHOLD: i64 = 20_000;

/// Total distance travelled by an arrow, from spawn to target, in millipixels.
pub const DISTANCE: i64 = TARGET_POSITION - SPAWN_POSITION;

/// How long to wait before starting a song after entering a game, in
/// milliseconds.
pub const SONG_START_DELAY: i64 = 5_000;

/// Smallest distance past the clickable window, in millipixels, at which the
/// post-target visual decay kicks in. Avoids flicker right at the boundary.
pub const DECAY_EPSILON: i64 = 20;

/// Largest magnitude accepted for a timestamp or an authored click time, in
/// milliseconds. Keeps every time computation far away from `i64` overflow.
/// About 11.6 days of host uptime: the host picks the timestamps' origin
/// (its own start), so magnitudes stay far below this.
pub const TIME_LIMIT: i64 = 1_000_000_000;

/// Largest magnitude accepted for an arrow coordinate, in millipixels. Keeps
/// every position computation far away from `i64` overflow.
pub const POS_LIMIT: i64 = 1_000_000_000;

/// Largest magnitude accepted for an accumulated arrow rotation.
pub const ROT_LIMIT: i64 = 1_000_000_000;

/// Largest tick delta accepted by the movement pass, in milliseconds.
pub const DELTA_LIMIT: i64 = 10_000_000;

/// Possible app states.
#[derive(Clone, Copy, PartialEq, Eq, Hash, Structural)]
pub enum AppState {
    Menu,
    Game,
    MakeMap,
}

} // verus!
