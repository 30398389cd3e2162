//! Wait the same amount of time between retries.

use crate::delay::Delay;
use crate::simple::Backoff;
use vstd::prelude::*;

verus! {

/// Waits `wait_for` after every failed attempt.
pub struct RegularIntervalBackoff {
    pub wait_for: Delay,
}

impl Backoff for RegularIntervalBackoff {
    /// Always `wait_for`, and no change of state.
    open spec fn answers(self, retry: usize, after: Self, pause: Option<Delay>) -> bool {
        after == self && pause == Some(self.wait_for)
    }

    fn wait(&mut self, _retry: usize) -> (r: Option<Delay>)
        ensures
            *final(self) == *old(self),
            r == Some(old(self).wait_for),
    {
        Some(self.wait_for)
    }
}

} // verus!
