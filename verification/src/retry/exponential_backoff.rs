//! Wait for an exponentially increasing amount of time between retries.

use crate::delay::{Delay, NANOS_PER_SEC};
use crate::retry::Backoff;
use vstd::arithmetic::power2::{lemma_pow2_unfold, pow2};
use vstd::prelude::*;

verus! {

/// The pause in seconds after failed attempt `retry`: `start * 2^retry`, but
/// at most `max`. `None` where `2^retry` or the product does not fit in a `u32`.
pub open spec fn capped_exponential_secs(start: nat, max: nat, retry: nat) -> Option<nat> {
    if retry >= 32 || start * pow2(retry) > u32::MAX {
        None
    } else if max <= start * pow2(retry) {
        Some(max)
    } else {
        Some(start * pow2(retry))
    }
}

/// `2^exp`, where it fits in a `u32`.
fn checked_pow2(exp: u32) -> (r: Option<u32>)
    ensures
        r is Some <==> exp < 32,
        r matches Some(p) ==> p == pow2(exp as nat),
{
    if exp >= 32 {
        return None;
    }
    let mut p: u32 = 1;
    let mut i: u32 = 0;
    proof {
        vstd::arithmetic::power2::lemma2_to64();
    }
    while i < exp
        invariant
            i <= exp < 32,
            p == pow2(i as nat),
            pow2(31) == 0x8000_0000,
        decreases exp - i,
    {
        proof {
            lemma_pow2_unfold((i + 1) as nat);
            vstd::arithmetic::power2::lemma_pow2_strictly_increases(i as nat, 31);
        }
        p = p * 2;
        i = i + 1;
    }
    Some(p)
}

/// The pause in seconds after failed attempt `retry` for a strategy that
/// starts at `start` seconds, doubles at each attempt and never exceeds `max`.
pub fn capped_exponential(start: u32, max: u32, retry: u32) -> (r: Option<u32>)
    ensures
        r matches Some(s) ==> capped_exponential_secs(start as nat, max as nat, retry as nat)
            == Some(s as nat),
        r is None ==> capped_exponential_secs(start as nat, max as nat, retry as nat) is None,
{
    match checked_pow2(retry) {
        None => None,
        Some(p) => match start.checked_mul(p) {
            None => None,
            Some(secs) => if max <= secs {
                Some(max)
            } else {
                Some(secs)
            },
        },
    }
}

/// Waits `start * 2^retry` seconds after failed attempt `retry`, at most `max` seconds.
pub struct ExponentialBackoff {
    pub start: u32,
    pub max: u32,
}

impl ExponentialBackoff {
    /// Starts at one second and waits twelve seconds at most.
    pub fn recommended() -> (b: Self)
        ensures
            b.start == 1,
            b.max == 12,
    {
        Self { start: 1, max: 12 }
    }
}

impl Backoff for ExponentialBackoff {
    fn wait(&self, retry: u32) -> (r: Option<Delay>)
        ensures
            r is Some <==> capped_exponential_secs(self.start as nat, self.max as nat, retry as nat)
                is Some,
            r matches Some(d) ==> d@ == capped_exponential_secs(
                self.start as nat,
                self.max as nat,
                retry as nat,
            ).unwrap() * NANOS_PER_SEC as nat,
    {
        match capped_exponential(self.start, self.max, retry) {
            Some(secs) => Some(Delay::from_secs(secs as u64)),
            None => None,
        }
    }
}

/// The exponential pause is `min(max, start * 2^retry)` seconds: it is
/// defined exactly when `2^retry` and `start * 2^retry` fit in a `u32`, and
/// then it is at most `max`, at most `start * 2^retry`, and equal to one of
/// the two.
pub proof fn law_capped_exponential(start: nat, max: nat, retry: nat)
    ensures
        capped_exponential_secs(start, max, retry) is Some <==> (retry < 32 && start * pow2(retry)
            <= u32::MAX),
        capped_exponential_secs(start, max, retry) matches Some(s) ==> {
            &&& s <= max
            &&& s <= start * pow2(retry)
            &&& (s == max || s == start * pow2(retry))
        },
{
}

/// The pauses grow exponentially: where the pause after attempt `retry + 1`
/// is defined, so is the one after attempt `retry`; it is never shorter, and
/// below the cap it is exactly twice as long.
pub proof fn law_exponential_growth(start: nat, max: nat, retry: nat)
    requires
        capped_exponential_secs(start, max, retry + 1) is Some,
    ensures
        capped_exponential_secs(start, max, retry) is Some,
        capped_exponential_secs(start, max, retry).unwrap() <= capped_exponential_secs(
            start,
            max,
            retry + 1,
        ).unwrap(),
        capped_exponential_secs(start, max, retry + 1).unwrap() < max ==> capped_exponential_secs(
            start,
            max,
            retry + 1,
        ).unwrap() == 2 * capped_exponential_secs(start, max, retry).unwrap(),
{
    lemma_pow2_unfold(retry + 1);
    let p = pow2(retry);
    assert(start * pow2(retry + 1) == 2 * (start * p)) by (nonlinear_arith)
        requires
            pow2(retry + 1) == 2 * p,
    ;
}

} // verus!
