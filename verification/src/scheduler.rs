//! Fixed-interval scheduling.
//!
//! The slow controllers do not run on every tick. Each of them owns a timer
//! that is handed the time of every tick and tells whether the controller is
//! due.

use vstd::prelude::*;

verus! {

/// The time between two population ticks, in microseconds.
pub const POPULATION_INTERVAL: u64 = 100_000;

/// The time between two targeting ticks, in microseconds.
pub const AGRO_INTERVAL: u64 = 500_000;

/// A repeating timer. Times are in microseconds.
#[derive(Clone, Copy, Debug, PartialEq, Eq, Structural)]
pub struct IntervalTimer {
    pub interval: u64,
    /// The time since the timer last fired.
    pub elapsed: u64,
}

/// The time gathered once `delta` has passed, limited to the range of `u64`.
pub open spec fn gathered(elapsed: u64, delta: u64) -> int {
    if elapsed + delta > u64::MAX {
        u64::MAX as int
    } else {
        elapsed + delta
    }
}

impl IntervalTimer {
    /// Whether the timer fires when `delta` passes: a full interval has
    /// gathered. A timer without interval fires on every tick.
    pub open spec fn fires(self, delta: u64) -> bool {
        gathered(self.elapsed, delta) >= self.interval
    }

    /// The timer after `delta` has passed. When it fires it keeps what is
    /// left over of the gathered time after whole intervals are taken off.
    pub open spec fn after(self, delta: u64) -> IntervalTimer {
        IntervalTimer {
            interval: self.interval,
            elapsed: if self.interval == 0 {
                0
            } else if self.fires(delta) {
                (gathered(self.elapsed, delta) % (self.interval as int)) as u64
            } else {
                gathered(self.elapsed, delta) as u64
            },
        }
    }

    /// A timer that has not run yet.
    pub fn new(interval: u64) -> (timer: IntervalTimer)
        ensures
            timer == (IntervalTimer { interval, elapsed: 0 }),
    {
        IntervalTimer { interval, elapsed: 0 }
    }

    /// Lets `delta` pass and tells whether the timer fired. It fires at most
    /// once per call, however many intervals have passed.
    pub fn tick(&mut self, delta: u64) -> (fired: bool)
        ensures
            fired == old(self).fires(delta),
            *final(self) == old(self).after(delta),
            final(self).interval > 0 && fired ==> final(self).elapsed < final(self).interval,
    {
        let total: u64 = if delta > u64::MAX - self.elapsed {
            u64::MAX
        } else {
            self.elapsed + delta
        };
        if self.interval == 0 {
            self.elapsed = 0;
            true
        } else if total >= self.interval {
            self.elapsed = total % self.interval;
            true
        } else {
            self.elapsed = total;
            false
        }
    }
}

} // verus!
