//! Wait the same amount of time between retries.

use crate::delay::Delay;
use crate::retry::Backoff;
use vstd::prelude::*;

verus! {

/// Waits `wait_for` after every failed attempt.
pub struct RegularIntervalBackoff {
    pub wait_for: Delay,
}

impl Backoff for RegularIntervalBackoff {
    fn wait(&self, _retry: u32) -> (r: Option<Delay>)
        ensures
            r == Some(self.wait_for),
    {
        Some(self.wait_for)
    }
}

} // verus!
