//! The countdown that runs before a round starts.

use vstd::prelude::*;
use crate::numeric::{time_sum, MICROS_PER_SECOND};

verus! {

/// A countdown of whole seconds.
///
/// `duration` and `elapsed` are in microseconds; `count` is the number of whole seconds
/// still to go, as it is displayed.
#[derive(Clone, Copy, Debug, PartialEq, Eq, Structural)]
pub struct Countdown {
    pub duration: u64,
    pub elapsed: u64,
    pub active: bool,
    pub count: i32,
}

impl Countdown {
    /// The countdown lasts a positive number of whole seconds that `count` can hold.
    pub open spec fn well_formed(self) -> bool {
        &&& self.duration > 0
        &&& self.duration % MICROS_PER_SECOND == 0
        &&& self.duration / MICROS_PER_SECOND <= i32::MAX
    }

    /// The number of whole seconds left after `elapsed` microseconds, no lower than the
    /// least value that `count` can hold.
    pub open spec fn remaining_seconds(self, elapsed: u64) -> i32 {
        let left = self.duration / MICROS_PER_SECOND - elapsed / MICROS_PER_SECOND;
        if left < i32::MIN {
            i32::MIN
        } else {
            left as i32
        }
    }

    /// The countdown restarted from its full duration.
    pub open spec fn spec_started(self) -> Countdown {
        Countdown {
            duration: self.duration,
            elapsed: 0,
            active: true,
            count: (self.duration / MICROS_PER_SECOND) as i32,
        }
    }

    /// Whether a step of `delta` microseconds finishes the countdown.
    pub open spec fn finishes_within(self, delta: u64) -> bool {
        self.active && time_sum(self.elapsed, delta) >= self.duration
    }

    /// The countdown after a step of `delta` microseconds: an inactive countdown stays as
    /// it is; an active one accumulates the time, shows the seconds left, and turns
    /// inactive once the duration is reached.
    pub open spec fn spec_updated(self, delta: u64) -> Countdown {
        if !self.active {
            self
        } else {
            let elapsed = time_sum(self.elapsed, delta);
            Countdown {
                duration: self.duration,
                elapsed,
                active: elapsed < self.duration,
                count: self.remaining_seconds(elapsed),
            }
        }
    }

    /// Whether the countdown is well formed.
    pub fn is_well_formed(&self) -> (valid: bool)
        ensures
            valid == self.well_formed(),
    {
        self.duration > 0 && self.duration % MICROS_PER_SECOND == 0 && self.duration
            / MICROS_PER_SECOND <= 2_147_483_647
    }

    /// An inactive countdown of `seconds` seconds.
    pub fn new(seconds: i32) -> (countdown: Countdown)
        requires
            seconds > 0,
        ensures
            countdown.well_formed(),
            countdown == (Countdown {
                duration: (seconds * MICROS_PER_SECOND) as u64,
                elapsed: 0,
                active: false,
                count: seconds,
            }),
    {
        Countdown {
            duration: (seconds as u64) * MICROS_PER_SECOND,
            elapsed: 0,
            active: false,
            count: seconds,
        }
    }

    /// Restarts the countdown from its full duration.
    pub fn start(&mut self)
        requires
            old(self).well_formed(),
        ensures
            *final(self) == old(self).spec_started(),
            final(self).well_formed(),
            final(self).active,
            final(self).elapsed == 0,
    {
        self.elapsed = 0;
        self.active = true;
        self.count = (self.duration / MICROS_PER_SECOND) as i32;
    }

    /// Advances the countdown by `delta` microseconds and says whether it has just
    /// finished: true exactly on the step on which an active countdown reaches its
    /// duration, which also turns it inactive.
    pub fn update(&mut self, delta: u64) -> (finished: bool)
        requires
            old(self).well_formed(),
        ensures
            *final(self) == old(self).spec_updated(delta),
            finished == old(self).finishes_within(delta),
            finished ==> !final(self).active,
            final(self).well_formed(),
    {
        if !self.active {
            return false;
        }
        self.elapsed = self.elapsed.saturating_add(delta);
        let total: i64 = (self.duration / MICROS_PER_SECOND) as i64;
        let passed: u64 = self.elapsed / MICROS_PER_SECOND;
        let remaining: i32 = if passed > (total as u64) + 2_147_483_648 {
            i32::MIN
        } else {
            (total - passed as i64) as i32
        };
        if remaining != self.count {
            self.count = remaining;
        }
        if self.elapsed >= self.duration {
            self.active = false;
            return true;
        }
        false
    }

    /// Once a countdown has finished, further steps change nothing and signal nothing.
    pub proof fn lemma_finish_is_signalled_once(self, first: u64, second: u64)
        requires
            self.finishes_within(first),
        ensures
            !self.spec_updated(first).finishes_within(second),
            self.spec_updated(first).spec_updated(second) == self.spec_updated(first),
    {
    }
}

} // verus!
