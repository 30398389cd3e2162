//! Wait for an exponentially increasing amount of time between retries.

use crate::delay::{Delay, NANOS_PER_SEC};
use crate::retry::exponential_backoff::{capped_exponential, capped_exponential_secs};
use crate::simple::Backoff;
use vstd::prelude::*;

verus! {

/// Waits `start * 2^retry` seconds after failed attempt `retry`, at most
/// `max` seconds; the attempt number is taken modulo `2^32`.
pub struct ExponentialBackoff {
    pub max: u32,
    pub start: u32,
}

impl Backoff for ExponentialBackoff {
    /// The capped exponential pause, and no change of state.
    open spec fn answers(self, retry: usize, after: Self, pause: Option<Delay>) -> bool {
        let secs = capped_exponential_secs(self.start as nat, self.max as nat, (retry as u32) as nat);
        &&& after == self
        &&& pause is Some <==> secs is Some
        &&& pause matches Some(d) ==> d@ == secs.unwrap() * NANOS_PER_SEC as nat
    }

    fn wait(&mut self, retry: usize) -> (r: Option<Delay>)
        ensures
            *final(self) == *old(self),
            r is Some <==> capped_exponential_secs(
                old(self).start as nat,
                old(self).max as nat,
                (retry as u32) as nat,
            ) is Some,
            r matches Some(d) ==> d@ == capped_exponential_secs(
                old(self).start as nat,
                old(self).max as nat,
                (retry as u32) as nat,
            ).unwrap() * NANOS_PER_SEC as nat,
    {
        match capped_exponential(self.start, self.max, retry as u32) {
            Some(secs) => Some(Delay::from_secs(secs as u64)),
            None => None,
        }
    }
}

} // verus!
