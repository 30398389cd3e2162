//! Wait a random amount of time, up to an exponentially increasing bound,
//! between retries.

use crate::delay::{Delay, NANOS_PER_SEC};
use crate::retry::exponential_backoff::{capped_exponential, capped_exponential_secs};
use crate::retry::Backoff;
use vstd::prelude::*;

verus! {

#[verifier::external_type_specification]
#[verifier::external_body]
pub struct ExThreadRng(rand::rngs::ThreadRng);

/// Calls `rand::thread_rng`, the thread-local generator that the system
/// seeds. Nothing is claimed of the generator it hands back.
#[verifier::external_body]
pub(crate) fn thread_rng() -> rand::rngs::ThreadRng {
    rand::thread_rng()
}

/// Calls `rand::Rng::gen_range` on the inclusive range `0..=hi`. rand's
/// documentation and source give a number between `0` and `hi`, both
/// included; the range is never empty, so the call does not panic. Which
/// number comes out depends on the generator's state and is not claimed.
#[verifier::external_body]
pub(crate) fn gen_range_up_to(rng: &mut rand::rngs::ThreadRng, hi: u32) -> (r: u32)
    ensures
        r <= hi,
{
    rand::Rng::gen_range(rng, 0..=hi)
}

/// Waits a random whole number of seconds between zero and
/// `min(max, start * 2^retry)` after failed attempt `retry`.
pub struct FullJitterExponentialBackoff {
    pub max: u32,
    pub start: u32,
}

impl FullJitterExponentialBackoff {
    /// The recommended configuration: `max` 1 and `start` 12.
    pub fn recommended() -> (b: Self)
        ensures
            b.max == 1,
            b.start == 12,
    {
        Self { max: 1, start: 12 }
    }

    /// The longest pause after failed attempt `retry`, in seconds.
    pub fn upper_bound(&self, retry: u32) -> (r: Option<u32>)
        ensures
            r matches Some(s) ==> capped_exponential_secs(self.start as nat, self.max as nat, retry as nat)
                == Some(s as nat),
            r is None ==> capped_exponential_secs(self.start as nat, self.max as nat, retry as nat)
                is None,
    {
        capped_exponential(self.start, self.max, retry)
    }
}

impl Backoff for FullJitterExponentialBackoff {
    fn wait(&self, retry: u32) -> (r: Option<Delay>)
        ensures
            r is Some <==> capped_exponential_secs(self.start as nat, self.max as nat, retry as nat)
                is Some,
            r matches Some(d) ==> d@ % NANOS_PER_SEC as nat == 0 && d@ / NANOS_PER_SEC as nat
                <= capped_exponential_secs(self.start as nat, self.max as nat, retry as nat).unwrap(),
    {
        match self.upper_bound(retry) {
            Some(bound) => {
                let mut rng = thread_rng();
                let secs = gen_range_up_to(&mut rng, bound);
                let d = Delay::from_secs(secs as u64);
                assert(d@ / NANOS_PER_SEC as nat == secs as nat) by (nonlinear_arith)
                    requires
                        d@ == secs as nat * NANOS_PER_SEC as nat,
                ;
                assert(d@ % NANOS_PER_SEC as nat == 0) by (nonlinear_arith)
                    requires
                        d@ == secs as nat * NANOS_PER_SEC as nat,
                ;
                Some(d)
            },
            None => None,
        }
    }
}

} // verus!
