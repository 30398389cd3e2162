//! Wait a random amount of time, up to an exponentially increasing bound,
//! between retries.

use crate::delay::{Delay, NANOS_PER_SEC};
use crate::retry::exponential_backoff::{capped_exponential, capped_exponential_secs};
use crate::retry::full_jitter_exponential_backoff::{gen_range_up_to, thread_rng};
use crate::simple::Backoff;
use vstd::prelude::*;

verus! {

/// Waits a random whole number of seconds between zero and
/// `min(max, start * 2^retry)` after failed attempt `retry`; the attempt
/// number is taken modulo `2^32`.
pub struct FullJitterExponentialBackoff {
    pub max: u32,
    pub start: u32,
}

impl Backoff for FullJitterExponentialBackoff {
    /// A whole number of seconds up to the capped exponential bound, and no
    /// change of state.
    open spec fn answers(self, retry: usize, after: Self, pause: Option<Delay>) -> bool {
        let secs = capped_exponential_secs(self.start as nat, self.max as nat, (retry as u32) as nat);
        &&& after == self
        &&& pause is Some <==> secs is Some
        &&& pause matches Some(d) ==> d@ % NANOS_PER_SEC as nat == 0 && d@ / NANOS_PER_SEC as nat
            <= secs.unwrap()
    }

    fn wait(&mut self, retry: usize) -> (r: Option<Delay>)
        ensures
            *final(self) == *old(self),
            r is Some <==> capped_exponential_secs(
                old(self).start as nat,
                old(self).max as nat,
                (retry as u32) as nat,
            ) is Some,
            r matches Some(d) ==> d@ % NANOS_PER_SEC as nat == 0 && d@ / NANOS_PER_SEC as nat
                <= capped_exponential_secs(
                old(self).start as nat,
                old(self).max as nat,
                (retry as u32) as nat,
            ).unwrap(),
    {
        match capped_exponential(self.start, self.max, retry as u32) {
            Some(bound) => {
                let mut rng = thread_rng();
                let secs = gen_range_up_to(&mut rng, bound);
                let d = Delay::from_secs(secs as u64);
                assert(d@ / NANOS_PER_SEC as nat == secs as nat) by (nonlinear_arith)
                    requires
                        d@ == secs as nat * NANOS_PER_SEC as nat,
                ;
                assert(d@ % NANOS_PER_SEC as nat == 0) by (nonlinear_arith)
                    requires
                        d@ == secs as nat * NANOS_PER_SEC as nat,
                ;
                Some(d)
            },
            None => None,
        }
    }
}

} // verus!
