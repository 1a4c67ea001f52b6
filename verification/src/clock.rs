//! A monotonic millisecond clock, held as explicit state.
//!
//! Deadlines throughout the crate are monotonic millisecond timestamps read
//! from a clock of this kind. The clock only ever moves forward.

use vstd::prelude::*;

verus! {

/// A monotonic millisecond clock. The current instant can be read, moved
/// forward to a target instant, or moved forward by a duration; it never
/// moves backward.
pub struct SimClock {
    now_ms: u32,
}

impl View for SimClock {
    type V = u32;

    closed spec fn view(&self) -> u32 {
        self.now_ms
    }
}

impl SimClock {
    /// A clock reading `start_ms`.
    pub fn new(start_ms: u32) -> (clock: SimClock)
        ensures
            clock@ == start_ms,
    {
        SimClock { now_ms: start_ms }
    }

    /// The current instant, in milliseconds.
    pub fn now(&self) -> (t: u32)
        ensures
            t == self@,
    {
        self.now_ms
    }

    /// Move the clock forward to `target`; a target already in the past
    /// leaves the clock unchanged, so the clock stays monotonic.
    pub fn advance_to(&mut self, target: u32)
        ensures
            final(self)@ == if target >= old(self)@ {
                target
            } else {
                old(self)@
            },
    {
        if target >= self.now_ms {
            self.now_ms = target;
        }
    }

    /// Move the clock forward by exactly `duration_ms`.
    pub fn advance_by(&mut self, duration_ms: u32)
        requires
            old(self)@ + duration_ms <= u32::MAX,
        ensures
            final(self)@ == old(self)@ + duration_ms,
    {
        self.now_ms = self.now_ms + duration_ms;
    }
}

} // verus!
