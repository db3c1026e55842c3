//! The audio-start cue: the song begins a fixed delay after entering the
//! game, and the host must trigger playback in exactly the tick whose
//! window reaches that boundary.

use vstd::prelude::*;

use crate::consts::SONG_START_DELAY;

verus! {

/// True in the tick whose window covers the song-start boundary: the
/// elapsed time just reached (or passed) the start delay, and the previous
/// tick had not. The window is open at the lower bound and closed at the
/// upper, like the spawner's, so on rising ticks the boundary is reached in
/// exactly one tick — even when a tick lands exactly on the delay — and the
/// host plays the song exactly once.
pub fn song_start_due(secs: i64, secs_last: i64) -> (r: bool)
    ensures
        r == (secs_last < SONG_START_DELAY && SONG_START_DELAY <= secs),
{
    secs_last < SONG_START_DELAY && SONG_START_DELAY <= secs
}

} // verus!
