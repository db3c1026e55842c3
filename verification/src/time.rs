//! A resettable clock. The host frame loop supplies monotonic timestamps in
//! milliseconds; the clock turns them into elapsed time since the last reset
//! and the delta since the previous tick. It is reset when entering a timed
//! mode, so song timing always starts at zero.

use vstd::prelude::*;

use crate::consts::TIME_LIMIT;

verus! {

/// A clock that tracks elapsed time since its epoch and the delta between
/// the last two updates, both in milliseconds. Resetting moves the epoch to
/// the given instant and zeroes the elapsed time; it leaves the delta from
/// the prior tick untouched until the next update.
#[derive(Debug, Clone, Copy)]
pub struct ControlledTime {
    delta: i64,
    last_update: Option<i64>,
    startup: i64,
    since_startup: i64,
}

impl ControlledTime {
    /// Milliseconds between the last two updates.
    pub closed spec fn spec_delta(self) -> int {
        self.delta as int
    }

    /// The instant of the last update, if any.
    pub closed spec fn spec_last_update(self) -> Option<i64> {
        self.last_update
    }

    /// The current epoch: the instant of the last reset.
    pub closed spec fn spec_startup(self) -> int {
        self.startup as int
    }

    /// Milliseconds of elapsed time since the epoch, as of the last update.
    pub closed spec fn spec_elapsed(self) -> int {
        self.since_startup as int
    }

    /// All stored times are ordinary timestamps, far from overflow.
    pub closed spec fn wf(self) -> bool {
        &&& -TIME_LIMIT <= self.startup <= TIME_LIMIT
        &&& 0 <= self.delta <= 2 * TIME_LIMIT
        &&& 0 <= self.since_startup <= 2 * TIME_LIMIT
        &&& match self.last_update {
            Some(t) => -TIME_LIMIT <= t <= TIME_LIMIT,
            None => true,
        }
    }

    /// Reset tracked time to 0, with `now` as the new epoch.
    pub fn reset_time(&mut self, now: i64)
        requires
            old(self).wf(),
            -TIME_LIMIT <= now <= TIME_LIMIT,
        ensures
            final(self).wf(),
            final(self).spec_startup() == now,
            final(self).spec_elapsed() == 0,
            final(self).spec_delta() == old(self).spec_delta(),
            final(self).spec_last_update() == old(self).spec_last_update(),
    {
        self.startup = now;
        self.since_startup = 0;
    }

    /// Update the tracked time with some instant in time, in milliseconds.
    /// The delta becomes the time since the previous update, clamped to zero
    /// should the timestamps ever jump backwards; the elapsed time becomes
    /// the time since the epoch, clamped the same way.
    pub fn update_with_instant(&mut self, instant: i64)
        requires
            old(self).wf(),
            -TIME_LIMIT <= instant <= TIME_LIMIT,
        ensures
            final(self).wf(),
            final(self).spec_startup() == old(self).spec_startup(),
            final(self).spec_last_update() == Some(instant),
            final(self).spec_delta() == match old(self).spec_last_update() {
                Some(prev) => if instant >= prev {
                    instant - prev
                } else {
                    0
                },
                None => old(self).spec_delta(),
            },
            final(self).spec_elapsed() == if instant >= old(self).spec_startup() {
                instant - old(self).spec_startup()
            } else {
                0
            },
    {
        match self.last_update {
            Some(prev) => {
                self.delta = if instant >= prev {
                    instant - prev
                } else {
                    0
                };
            },
            None => {},
        }

        self.since_startup = if instant >= self.startup {
            instant - self.startup
        } else {
            0
        };
        self.last_update = Some(instant);
    }

    /// The delta between the current and last tick, in milliseconds.
    pub fn delta_millis(&self) -> (d: i64)
        ensures
            d == self.spec_delta(),
    {
        self.delta
    }

    /// The time since the epoch as of the last update, in milliseconds.
    pub fn millis_since_startup(&self) -> (t: i64)
        ensures
            t == self.spec_elapsed(),
    {
        self.since_startup
    }
}

impl Default for ControlledTime {
    /// A clock with epoch zero that has never been updated.
    fn default() -> (t: ControlledTime)
        ensures
            t.wf(),
            t.spec_delta() == 0,
            t.spec_last_update() is None,
            t.spec_startup() == 0,
            t.spec_elapsed() == 0,
    {
        ControlledTime { delta: 0, last_update: None, startup: 0, since_startup: 0 }
    }
}

} // verus!
