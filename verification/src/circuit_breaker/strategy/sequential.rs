//! Opens the circuit after a number of consecutive failures.

use crate::circuit_breaker::CircuitBreakerStrategy;
use crate::delay::{Delay, NANOS_PER_SEC};
use std::time::{Duration, Instant};
use vstd::prelude::*;

verus! {

/// Calls `std::time::Instant::now`. The moment it answers depends on the
/// clock: nothing is claimed of it.
#[verifier::external_body]
fn instant_now() -> Instant {
    Instant::now()
}

/// Calls `std::time::Instant::elapsed`. The span depends on the clock:
/// nothing is claimed of it.
#[verifier::external_body]
fn instant_elapsed(since: &Instant) -> Duration {
    since.elapsed()
}

/// Calls `std::time::Duration::as_secs`, the whole seconds of `d`. Nothing
/// is claimed of them.
#[verifier::external_body]
fn duration_as_secs(d: &Duration) -> u64 {
    d.as_secs()
}

/// Calls `std::time::Duration::subsec_nanos`, the nanoseconds beyond the
/// whole seconds of `d`, which std documents as less than one second.
#[verifier::external_body]
fn duration_subsec_nanos(d: &Duration) -> (n: u32)
    ensures
        n < NANOS_PER_SEC,
{
    d.subsec_nanos()
}

/// The error count after one more error: it wraps around at `u32::MAX`.
pub open spec fn counted_error(errors: nat) -> nat {
    (errors + 1) % 0x1_0000_0000
}

/// The error count after one success: one less, down to zero.
pub open spec fn counted_success(errors: nat) -> nat {
    if errors > 1 {
        (errors - 1) as nat
    } else {
        0
    }
}

/// The error count after a sequence of events, `true` for an error and
/// `false` for a success, starting from `errors`.
pub open spec fn errors_after(errors: nat, events: Seq<bool>) -> nat
    decreases events.len(),
{
    if events.len() == 0 {
        errors
    } else {
        errors_after(
            if events[0] {
                counted_error(errors)
            } else {
                counted_success(errors)
            },
            events.drop_first(),
        )
    }
}

/// Counts errors; opens the circuit once they reach a maximum, and half
/// opens it once a backoff span has passed since it opened.
pub struct ConsecutiveFailures {
    max_error_count: u32,
    error_count: u32,
    opened_at: Option<Instant>,
    backoff: Delay,
}

impl ConsecutiveFailures {
    /// The number of errors at which the circuit opens.
    pub closed spec fn max_errors(self) -> nat {
        self.max_error_count as nat
    }

    /// The number of errors counted.
    pub closed spec fn errors(self) -> nat {
        self.error_count as nat
    }

    /// The moment the circuit opened, where one is recorded.
    pub closed spec fn opened_at(self) -> Option<Instant> {
        self.opened_at
    }

    /// Whether the moment the circuit opened is recorded.
    pub open spec fn opened(self) -> bool {
        self.opened_at() is Some
    }

    /// The span after which an open circuit half opens.
    pub closed spec fn backoff_delay(self) -> Delay {
        self.backoff
    }

    /// Whether the circuit half opens when `elapsed` has passed since it
    /// opened: only where its opening is recorded, and once the backoff span
    /// has passed.
    pub open spec fn half_opens_after(self, elapsed: Delay) -> bool {
        self.opened() && elapsed@ >= self.backoff_delay()@
    }

    /// No errors counted, opens at ten errors, half opens three seconds
    /// after it opened.
    pub fn new() -> (s: Self)
        ensures
            s.errors() == 0,
            s.max_errors() == 10,
            !s.opened(),
            s.backoff_delay()@ == 3 * NANOS_PER_SEC,
    {
        Self {
            error_count: 0,
            max_error_count: 10,
            opened_at: None,
            backoff: Delay::from_secs(3),
        }
    }

    /// The same strategy, opening at `n` errors.
    pub fn max_error_count(self, n: u32) -> (s: Self)
        ensures
            s.max_errors() == n,
            s.errors() == self.errors(),
            s.opened_at() == self.opened_at(),
            s.backoff_delay() == self.backoff_delay(),
    {
        let mut s = self;
        s.max_error_count = n;
        s
    }

    /// The same strategy, half opening `duration` after it opened.
    pub fn backoff(self, duration: Delay) -> (s: Self)
        ensures
            s.backoff_delay() == duration,
            s.errors() == self.errors(),
            s.opened_at() == self.opened_at(),
            s.max_errors() == self.max_errors(),
    {
        let mut s = self;
        s.backoff = duration;
        s
    }

    /// Opens once the errors counted reach the maximum, and then records
    /// `now` as the moment the circuit opened.
    pub fn should_open_at(&mut self, now: Instant) -> (b: bool)
        ensures
            b == (old(self).errors() >= old(self).max_errors()),
            final(self).errors() == old(self).errors(),
            final(self).max_errors() == old(self).max_errors(),
            final(self).backoff_delay() == old(self).backoff_delay(),
            final(self).opened_at() == if b {
                Some(now)
            } else {
                old(self).opened_at()
            },
    {
        let should_open = self.error_count >= self.max_error_count;
        if should_open {
            self.opened_at = Some(now);
        }
        should_open
    }

    /// Whether an open circuit half opens when `elapsed` has passed since it
    /// opened: only where its opening is recorded.
    pub fn half_open_due(&self, elapsed: Delay) -> (b: bool)
        ensures
            b == self.half_opens_after(elapsed),
    {
        match &self.opened_at {
            None => false,
            Some(_) => elapsed.is_at_least(&self.backoff),
        }
    }
}

impl Default for ConsecutiveFailures {
    fn default() -> (s: Self)
        ensures
            s.errors() == 0,
            s.max_errors() == 10,
            !s.opened(),
            s.backoff_delay()@ == 3 * NANOS_PER_SEC,
    {
        Self::new()
    }
}

impl CircuitBreakerStrategy for ConsecutiveFailures {
    /// Opens once the errors counted reach the maximum, and then records
    /// the moment read from the clock.
    fn should_open(&mut self) -> (b: bool)
        ensures
            b == (old(self).errors() >= old(self).max_errors()),
            final(self).errors() == old(self).errors(),
            final(self).max_errors() == old(self).max_errors(),
            final(self).backoff_delay() == old(self).backoff_delay(),
            b ==> final(self).opened_at() is Some,
            !b ==> final(self).opened_at() == old(self).opened_at(),
    {
        if self.error_count >= self.max_error_count {
            let now = instant_now();
            self.should_open_at(now)
        } else {
            false
        }
    }

    /// Closes once no error is counted, and then forgets when it opened.
    fn should_close(&mut self) -> (b: bool)
        ensures
            b == (old(self).errors() == 0),
            final(self).errors() == old(self).errors(),
            final(self).max_errors() == old(self).max_errors(),
            final(self).backoff_delay() == old(self).backoff_delay(),
            b ==> final(self).opened_at() is None,
            !b ==> final(self).opened_at() == old(self).opened_at(),
    {
        let should_close = self.error_count == 0;
        if should_close {
            self.opened_at = None;
        }
        should_close
    }

    /// Half opens once the backoff span has passed since the circuit opened.
    /// The span that has passed is read from the clock: the answer is the
    /// decision for that span, whatever it is.
    fn should_half_open(&self) -> (b: bool)
        ensures
            exists|elapsed: Delay| b == #[trigger] self.half_opens_after(elapsed),
    {
        match &self.opened_at {
            None => {
                assert(!self.half_opens_after(vstd::pervasive::arbitrary::<Delay>()));
                false
            },
            Some(at) => {
                let elapsed = instant_elapsed(at);
                let secs = duration_as_secs(&elapsed);
                let nanos = duration_subsec_nanos(&elapsed);
                match Delay::new(secs, nanos) {
                    Some(e) => {
                        let b = self.half_open_due(e);
                        assert(b == self.half_opens_after(e));
                        b
                    },
                    None => {
                        assert(nanos as nat / NANOS_PER_SEC as nat == 0);
                        false
                    },
                }
            },
        }
    }

    /// Counts one more error; the count wraps around at `u32::MAX`.
    fn on_error(&mut self, _attempt: u16, _err: &dyn std::fmt::Display)
        ensures
            final(self).errors() == counted_error(old(self).errors()),
            final(self).max_errors() == old(self).max_errors(),
            final(self).opened_at() == old(self).opened_at(),
            final(self).backoff_delay() == old(self).backoff_delay(),
    {
        self.error_count = self.error_count.wrapping_add(1);
    }

    /// Counts one error less, down to zero.
    fn success(&mut self, _attempt: u16)
        ensures
            final(self).errors() == counted_success(old(self).errors()),
            final(self).max_errors() == old(self).max_errors(),
            final(self).opened_at() == old(self).opened_at(),
            final(self).backoff_delay() == old(self).backoff_delay(),
    {
        self.error_count = if self.error_count > 1 {
            self.error_count - 1
        } else {
            0
        };
    }
}

/// `k` errors in a row add `k` to the count, as long as it does not pass
/// `u32::MAX`: from zero, `max` errors make a strategy that opens at `max`
/// errors open.
pub proof fn law_errors_accumulate(errors: nat, k: nat)
    requires
        errors + k <= u32::MAX,
    ensures
        errors_after(errors, Seq::new(k, |i: int| true)) == errors + k,
    decreases k,
{
    if k > 0 {
        let events = Seq::new(k, |i: int| true);
        assert(events.drop_first() =~= Seq::new((k - 1) as nat, |i: int| true));
        law_errors_accumulate(errors + 1, (k - 1) as nat);
    }
}

/// `k` successes in a row take `k` off the count, down to zero: as many
/// successes as errors bring the count back to zero, and the circuit closes.
pub proof fn law_successes_drain(errors: nat, k: nat)
    ensures
        errors_after(errors, Seq::new(k, |i: int| false)) == if errors > k {
            (errors - k) as nat
        } else {
            0
        },
    decreases k,
{
    if k > 0 {
        let events = Seq::new(k, |i: int| false);
        assert(events.drop_first() =~= Seq::new((k - 1) as nat, |i: int| false));
        law_successes_drain(counted_success(errors), (k - 1) as nat);
    }
}

} // verus!
