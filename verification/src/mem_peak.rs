//! The running peak of a process's memory samples: the decision core of
//! the memory probe. The sampling thread hands in one reading at a time;
//! the probe keeps the largest seen and counts the samples.

use vstd::prelude::*;

verus! {

/// The largest memory reading observed so far, and how many readings
/// were taken.
pub struct MemPeak {
    pub max: u64,
    pub samples: u64,
}

impl MemPeak {
    /// A probe that has seen nothing.
    pub fn new() -> (r: MemPeak)
        ensures
            r.max == 0,
            r.samples == 0,
    {
        MemPeak { max: 0, samples: 0 }
    }

    /// Take one reading: the peak grows to the reading when it exceeds the
    /// peak, and the sample count advances.
    pub fn observe(&mut self, reading: u64)
        requires
            old(self).samples < u64::MAX,
        ensures
            final(self).max == if reading > old(self).max {
                reading
            } else {
                old(self).max
            },
            final(self).samples == old(self).samples + 1,
    {
        self.samples = self.samples + 1;
        if reading > self.max {
            self.max = reading;
        }
    }
}

} // verus!
