//! The heartbeat timer.
//!
//! A client sends a zero-length datagram on a fixed interval so that
//! an idle but live connection is not evicted by the server's
//! idle-timeout sweep. The timer here is a plain repeating timer:
//! ticking it by the host's delta reports whether the interval
//! elapsed, and keeps the overshoot so the cadence does not drift.
use crate::DEFAULT_HEARTBEAT_INTERVAL;
use vstd::prelude::*;

verus! {

/// A repeating timer: time accumulated since it last fired, and the
/// interval at which it fires.
pub struct HeartbeatTimer {
    pub elapsed: u64,
    pub interval: u64,
}

impl HeartbeatTimer {
    /// The interval must be positive, and the accumulated time stays
    /// below it between ticks.
    pub open spec fn wf(&self) -> bool {
        self.interval > 0 && self.elapsed < self.interval
    }

    /// Creates a timer that fires every `interval` time units.
    pub fn new(interval: u64) -> (t: HeartbeatTimer)
        requires
            interval > 0,
        ensures
            t.wf(),
            t.interval == interval,
            t.elapsed == 0,
    {
        HeartbeatTimer { elapsed: 0, interval }
    }

    /// Advances the timer by `delta` and reports whether it fired:
    /// it fires exactly when the accumulated time reaches the
    /// interval, and then keeps the remainder of the accumulated time
    /// modulo the interval.
    pub fn tick(&mut self, delta: u64) -> (fired: bool)
        requires
            old(self).wf(),
            old(self).elapsed + delta <= u64::MAX,
        ensures
            final(self).wf(),
            final(self).interval == old(self).interval,
            fired == (old(self).elapsed + delta >= old(self).interval),
            final(self).elapsed == (old(self).elapsed + delta) % (old(self).interval as int),
    {
        let total = self.elapsed + delta;
        if total >= self.interval {
            self.elapsed = total % self.interval;
            true
        } else {
            proof {
                vstd::arithmetic::div_mod::lemma_small_mod(total as nat, self.interval as nat);
            }
            self.elapsed = total;
            false
        }
    }
}

impl Default for HeartbeatTimer {
    /// A fresh timer with the default heartbeat interval.
    fn default() -> (t: HeartbeatTimer)
        ensures
            t.wf(),
            t.interval == DEFAULT_HEARTBEAT_INTERVAL,
            t.elapsed == 0,
    {
        HeartbeatTimer { elapsed: 0, interval: DEFAULT_HEARTBEAT_INTERVAL }
    }
}

} // verus!
