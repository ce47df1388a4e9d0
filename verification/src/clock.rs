//! The process-wide tick counter that drives animation frame advance.

use vstd::prelude::*;

verus! {

/// A monotonically increasing tick counter. One world tick advances it exactly
/// once. Policy at the top of its range: the counter saturates at `u64::MAX`
/// and never wraps, so a reading taken later is never smaller than one taken
/// earlier.
#[derive(Clone, Copy, Debug, PartialEq, Eq, Structural)]
pub struct Clock {
    pub time: u64,
}

/// The tick counter after one `tick`: one more, saturating at `u64::MAX`.
pub open spec fn spec_tick(t: u64) -> u64 {
    if t == u64::MAX {
        u64::MAX
    } else {
        (t + 1) as u64
    }
}

impl Clock {
    pub fn new() -> (r: Clock)
        ensures
            r.time == 0,
    {
        Clock { time: 0 }
    }

    /// Advances the counter by one tick (saturating at `u64::MAX`).
    pub fn tick(&mut self)
        ensures
            final(self).time == spec_tick(old(self).time),
    {
        if self.time < u64::MAX {
            self.time = self.time + 1;
        }
    }

    /// Reads the current tick count without changing it.
    pub fn time(&self) -> (r: u64)
        ensures
            r == self.time,
    {
        self.time
    }
}

} // verus!
