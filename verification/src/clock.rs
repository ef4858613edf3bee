//! The optional fixed-rate network clock.
//!
//! The clock decouples the network tick rate from the host's variable
//! frame delta: the host feeds it each frame's delta, asks how many
//! whole network frames have accumulated, and runs the network phases
//! that many times. Elapsed time is only ever reduced by whole
//! per-frame durations, and the frame counter never decreases.
use vstd::prelude::*;

verus! {

/// `a + b`, stopping at the largest representable value.
pub open spec fn saturating_add(a: u64, b: u64) -> u64 {
    if a + b <= u64::MAX {
        (a + b) as u64
    } else {
        u64::MAX
    }
}

fn sat_add(a: u64, b: u64) -> (r: u64)
    ensures
        r == saturating_add(a, b),
{
    if a <= u64::MAX - b {
        a + b
    } else {
        u64::MAX
    }
}

/// Accumulated host time not yet spent on network frames, the fixed
/// duration of one network frame, the total frames run, and how many
/// of them ran during the current host tick.
pub struct NetworkClock {
    pub elapsed: u64,
    pub per_frame: u64,
    pub total_frames: u64,
    pub tick_frames: u64,
}

impl NetworkClock {
    /// A network frame must take time, or a tick would run infinitely
    /// many of them.
    pub open spec fn wf(&self) -> bool {
        self.per_frame > 0
    }

    /// Creates a clock that runs one network frame per `per_frame`
    /// time units.
    pub fn new(per_frame: u64) -> (c: NetworkClock)
        requires
            per_frame > 0,
        ensures
            c.wf(),
            c.per_frame == per_frame,
            c.elapsed == 0,
            c.total_frames == 0,
            c.tick_frames == 0,
    {
        NetworkClock { elapsed: 0, per_frame, total_frames: 0, tick_frames: 0 }
    }

    /// Accumulates this host tick's delta and starts a fresh count of
    /// frames run this tick.
    pub fn update(&mut self, delta: u64)
        requires
            old(self).elapsed + delta <= u64::MAX,
        ensures
            final(self).elapsed == old(self).elapsed + delta,
            final(self).per_frame == old(self).per_frame,
            final(self).total_frames == old(self).total_frames,
            final(self).tick_frames == 0,
    {
        self.elapsed = self.elapsed + delta;
        self.tick_frames = 0;
    }

    /// Converts the accumulated elapsed time into whole network
    /// frames: returns how many fit, keeps the remainder — so the
    /// remainder is always less than one per-frame duration — and
    /// advances both frame counters by the frames returned.
    pub fn frames_to_run(&mut self) -> (n: u64)
        requires
            old(self).wf(),
        ensures
            final(self).wf(),
            final(self).per_frame == old(self).per_frame,
            n == old(self).elapsed / old(self).per_frame,
            final(self).elapsed == old(self).elapsed % old(self).per_frame,
            final(self).elapsed < final(self).per_frame,
            final(self).total_frames == saturating_add(old(self).total_frames, n),
            final(self).tick_frames == saturating_add(old(self).tick_frames, n),
    {
        let n = self.elapsed / self.per_frame;
        self.elapsed = self.elapsed % self.per_frame;
        self.total_frames = sat_add(self.total_frames, n);
        self.tick_frames = sat_add(self.tick_frames, n);
        n
    }

    /// Whether sends gated on the network tick should go out now: true
    /// exactly when at least one network frame ran this host tick.
    pub fn should_send_now(&self) -> (r: bool)
        ensures
            r == (self.tick_frames > 0),
    {
        self.tick_frames > 0
    }
}

} // verus!
