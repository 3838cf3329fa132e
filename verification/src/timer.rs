//! Work that is repeated at an interval.

use vstd::prelude::*;

verus! {

/// When something was last done, and how often it is to be done.
#[derive(Clone, Copy, Debug, PartialEq, Eq, Structural)]
pub struct Timer {
    pub last_ns: u64,
    pub interval_ns: u64,
}

impl Timer {
    /// A timer that starts at `now_ns`.
    pub fn new(now_ns: u64, interval_ns: u64) -> (r: Self)
        ensures
            r == (Timer { last_ns: now_ns, interval_ns }),
    {
        Timer { last_ns: now_ns, interval_ns }
    }

    /// The interval has passed.
    pub open spec fn due(self, now_ns: u64) -> bool {
        now_ns - self.last_ns >= self.interval_ns || self.interval_ns == 0
    }

    /// Whether the interval has passed.
    pub fn is_due(&self, now_ns: u64) -> (r: bool)
        ensures
            r == self.due(now_ns),
    {
        now_ns.saturating_sub(self.last_ns) >= self.interval_ns
    }

    /// Starts the interval anew.
    pub fn restart(&mut self, now_ns: u64)
        ensures
            *final(self) == (Timer { last_ns: now_ns, interval_ns: old(self).interval_ns }),
    {
        self.last_ns = now_ns;
    }
}

/// A timer that was just started is due exactly when its interval has passed.
pub proof fn timers_wait_for_their_interval(now_ns: u64, interval_ns: u64, later_ns: u64)
    requires
        later_ns >= now_ns,
        interval_ns > 0,
    ensures
        (Timer { last_ns: now_ns, interval_ns }).due(later_ns) == (later_ns - now_ns >= interval_ns),
{
}

} // verus!
