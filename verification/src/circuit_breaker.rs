//! A circuit breaker: a call guard that can be opened, half opened and
//! closed, and that retries a failing call a configurable number of times.
//! Breakers derived from one another with `with_retries` and `with_backoff`
//! share one state cell; what the cell holds is changed through shared
//! references by any of them, and is not modelled.
//!
//! As with [`crate::retry`], running the call and pausing belong to the
//! caller, which feeds each outcome to [`CallAttempts::record`] and acts on
//! the [`Step`] it answers.

pub mod clock;
pub mod state;
pub mod strategy;

use crate::delay::{Delay, NANOS_PER_SEC};
use crate::retry::{all_retry, result_of, share, Backoff, NoOpBackoff, RetryResult, Step};
use state::{code_is, CircuitBreakerInner, CircuitState};
use std::sync::Arc;
use strategy::sequential::ConsecutiveFailures;
use vstd::prelude::*;

verus! {

/// Contains information about the circuit breaker state.
#[derive(Debug)]
pub struct Context {
    /// Circuit breaker identifier. Can be anything.
    pub id: String,
}

/// Decides when the circuit breaker should transition to another state.
pub trait CircuitBreakerStrategy: Send + Sync {
    /// Called when the circuit transitions to the open state.
    fn on_open(&mut self) {
    }

    /// Called when the circuit transitions to the half open state.
    fn on_half_open(&mut self) {
    }

    /// Called when the circuit transitions to the closed state.
    fn on_close(&mut self) {
    }

    /// Called when an execution succeeds.
    fn success(&mut self, _attempt: u16) {
    }

    /// Called when an error happens.
    fn on_error(&mut self, _attempt: u16, _err: &dyn std::fmt::Display) {
    }

    /// The circuit closes if true is returned.
    fn should_close(&mut self) -> bool;

    /// The circuit opens if true is returned.
    fn should_open(&mut self) -> bool;

    /// The circuit half opens if true is returned.
    fn should_half_open(&self) -> bool;
}

/// One step of a guarded call: given the number of retries allowed and the
/// number of retries made so far, the new count and the step.
pub open spec fn next_call_step<T, E>(retries: nat, retry: nat, outcome: RetryResult<T, E>) -> (
    nat,
    Step<T, E>,
) {
    match outcome {
        RetryResult::Retry(err) => if retry == retries {
            (retry, Step::Finish(Err(err)))
        } else {
            ((retry + 1) as nat, Step::Again { retry: retry as u32 })
        },
        RetryResult::DontRetry(err) => (retry, Step::Finish(Err(err))),
        RetryResult::Done(v) => (retry, Step::Finish(Ok(v))),
    }
}

/// Feeds `outcomes` to a guarded call that has made `retry` retries. Where
/// the call finishes on one of them, the number of outcomes it consumed and
/// its result; `None` where it is still running after the last one.
pub open spec fn call_run<T, E>(
    retries: nat,
    retry: nat,
    outcomes: Seq<RetryResult<T, E>>,
) -> Option<(nat, Result<T, E>)>
    decreases outcomes.len(),
{
    if outcomes.len() == 0 {
        None
    } else {
        match next_call_step(retries, retry, outcomes[0]).1 {
            Step::Finish(result) => Some((1, result)),
            Step::Again { .. } => match call_run(
                retries,
                next_call_step(retries, retry, outcomes[0]).0,
                outcomes.drop_first(),
            ) {
                Some((n, result)) => Some((n + 1, result)),
                None => None,
            },
        }
    }
}

/// The retry numbers of the pauses that a guarded call makes while it
/// consumes `outcomes`.
pub open spec fn call_pauses<T, E>(
    retries: nat,
    retry: nat,
    outcomes: Seq<RetryResult<T, E>>,
) -> Seq<nat>
    decreases outcomes.len(),
{
    if outcomes.len() == 0 {
        Seq::empty()
    } else {
        match next_call_step(retries, retry, outcomes[0]).1 {
            Step::Finish(_) => Seq::empty(),
            Step::Again { retry: r } => seq![r as nat] + call_pauses(
                retries,
                next_call_step(retries, retry, outcomes[0]).0,
                outcomes.drop_first(),
            ),
        }
    }
}

/// The state of one guarded call: how many retries it allows after the
/// first attempt, and how many it has made.
pub struct CallAttempts {
    retries: u32,
    retry: u32,
}

impl CallAttempts {
    #[verifier::type_invariant]
    spec fn inv(self) -> bool {
        self.retry <= self.retries
    }

    /// The number of retries allowed after the first attempt.
    pub closed spec fn allowed(self) -> nat {
        self.retries as nat
    }

    /// The number of retries made so far.
    pub closed spec fn made(self) -> nat {
        self.retry as nat
    }

    /// Takes the outcome of the latest attempt and decides what comes next.
    pub fn record<T, E>(&mut self, outcome: RetryResult<T, E>) -> (s: Step<T, E>)
        ensures
            final(self).allowed() == old(self).allowed(),
            (final(self).made(), s) == next_call_step(old(self).allowed(), old(self).made(), outcome),
    {
        proof {
            use_type_invariant(&*self);
        }
        match outcome {
            RetryResult::Retry(err) => {
                if self.retry == self.retries {
                    Step::Finish(Err(err))
                } else {
                    let retry = self.retry;
                    self.retry = self.retry + 1;
                    Step::Again { retry }
                }
            },
            RetryResult::DontRetry(err) => Step::Finish(Err(err)),
            RetryResult::Done(v) => Step::Finish(Ok(v)),
        }
    }
}

/// A circuit breaker: its state, and the configuration of the calls it guards.
pub struct CircuitBreaker<B = NoOpBackoff> {
    /// The state that is shared between circuit breaker instances.
    inner: Arc<CircuitBreakerInner>,
    /// The number of retries before considering a call as failed.
    retries: u32,
    /// The backoff strategy.
    backoff: Option<Arc<B>>,
    /// The strategy used to decide when the circuit should transition to another state.
    strategy: Arc<ConsecutiveFailures>,
}

impl CircuitBreaker {
    /// A closed circuit, with a state cell of its own, whose calls are
    /// attempted only once and do not pause.
    pub fn new() -> (cb: Self)
        ensures
            cb.retries_allowed() == 0,
            cb.backoff_strategy() is None,
            cb.circuit_strategy().errors() == 0,
            cb.circuit_strategy().max_errors() == 10,
            cb.circuit_strategy().opened_at() is None,
            cb.circuit_strategy().backoff_delay()@ == 3 * NANOS_PER_SEC,
    {
        Self {
            inner: Arc::new(CircuitBreakerInner::new()),
            retries: 0,
            backoff: None,
            strategy: Arc::new(ConsecutiveFailures::new()),
        }
    }
}

impl<B> CircuitBreaker<B> {
    /// The number of retries a call makes at most after its first attempt.
    pub closed spec fn retries_allowed(self) -> nat {
        self.retries as nat
    }

    /// The strategy that decides when the circuit changes state.
    pub closed spec fn circuit_strategy(self) -> ConsecutiveFailures {
        *self.strategy
    }

    /// The backoff strategy, where one is set.
    pub closed spec fn backoff_strategy(self) -> Option<B> {
        match self.backoff {
            Some(b) => Some(*b),
            None => None,
        }
    }

    /// Whether `self` holds, as a value, the state cell of `other`. This is
    /// equality of the values behind the two `Arc`s, not identity of the
    /// cells: two distinct cells with equal contents meet it too. A breaker
    /// derived from another holds the other's cell through the same `Arc`,
    /// so that a transition on either is seen by both, but this spec does
    /// not say so.
    pub closed spec fn shares_state_with<C>(self, other: CircuitBreaker<C>) -> bool {
        self.inner == other.inner
    }

    /// Returns true when the circuit is open. The state is read from the
    /// shared cell, which is not modelled.
    pub fn is_open(&self) -> bool {
        code_is(self.inner.load(), CircuitState::Open)
    }

    /// Returns true when the circuit is half open. The state is read from the
    /// shared cell, which is not modelled.
    pub fn is_half_open(&self) -> bool {
        code_is(self.inner.load(), CircuitState::HalfOpen)
    }

    /// Returns true when the circuit is closed. The state is read from the
    /// shared cell, which is not modelled.
    pub fn is_closed(&self) -> bool {
        code_is(self.inner.load(), CircuitState::Closed)
    }

    /// Opens the circuit, for every breaker that shares its state.
    pub fn open(&self) {
        self.inner.store(CircuitState::Open);
    }

    /// Transitions the circuit to half open, for every breaker that shares
    /// its state.
    pub fn half_open(&self) {
        self.inner.store(CircuitState::HalfOpen);
    }

    /// Closes the circuit, for every breaker that shares its state.
    pub fn close(&self) {
        self.inner.store(CircuitState::Closed);
    }
}

impl<B: Backoff> CircuitBreaker<B> {
    /// A breaker sharing this one's state, with the same backoff, whose calls
    /// make `n` retries at most; `n` must be positive.
    pub fn with_retries(&self, n: u32) -> (cb: Self)
        requires
            n > 0,
        ensures
            cb.shares_state_with(*self),
            cb.retries_allowed() == n,
            cb.backoff_strategy() == self.backoff_strategy(),
            cb.circuit_strategy() == self.circuit_strategy(),
    {
        let backoff = match &self.backoff {
            Some(b) => Some(share(b)),
            None => None,
        };
        Self {
            inner: share(&self.inner),
            retries: n,
            backoff,
            strategy: share(&self.strategy),
        }
    }

    /// A breaker sharing this one's state, with the same number of retries,
    /// whose calls pause as `backoff` says.
    pub fn with_backoff<C: Backoff>(&self, backoff: C) -> (cb: CircuitBreaker<C>)
        ensures
            cb.shares_state_with(*self),
            cb.retries_allowed() == self.retries_allowed(),
            cb.backoff_strategy() == Some(backoff),
            cb.circuit_strategy() == self.circuit_strategy(),
    {
        CircuitBreaker {
            inner: share(&self.inner),
            retries: self.retries,
            backoff: Some(Arc::new(backoff)),
            strategy: share(&self.strategy),
        }
    }

    /// A fresh state for one guarded call.
    pub fn attempts(&self) -> (a: CallAttempts)
        ensures
            a.allowed() == self.retries_allowed(),
            a.made() == 0,
    {
        CallAttempts { retries: self.retries, retry: 0 }
    }

    /// The pause after failed attempt `retry`: `None` where no strategy is
    /// set, else what the strategy answers.
    pub fn pause(&self, retry: u32) -> (r: Option<Option<Delay>>)
        ensures
            r is None <==> self.backoff_strategy() is None,
            r matches Some(w) ==> call_ensures(B::wait, (&self.backoff_strategy().unwrap(), retry), w),
    {
        match &self.backoff {
            Some(b) => Some(b.wait(retry)),
            None => None,
        }
    }

    /// Tells the strategy, where one is set, that the pause `pause` after
    /// failed attempt `retry` is over.
    pub fn paused(&self, retry: u32, pause: Delay)
        ensures
            self.backoff_strategy() matches Some(b) ==> call_ensures(B::waited, (&b, retry, pause), ()),
    {
        match &self.backoff {
            Some(b) => b.waited(retry, pause),
            None => {},
        }
    }
}

impl Default for CircuitBreaker {
    fn default() -> (cb: Self)
        ensures
            cb.retries_allowed() == 0,
            cb.backoff_strategy() is None,
            cb.circuit_strategy().errors() == 0,
            cb.circuit_strategy().max_errors() == 10,
            cb.circuit_strategy().opened_at() is None,
            cb.circuit_strategy().backoff_delay()@ == 3 * NANOS_PER_SEC,
    {
        Self::new()
    }
}

/// A call that only ever sees retryable errors is attempted once more than
/// the retries it allows, ends with the last error, and pauses after every
/// attempt but the last one, the pauses numbered from 0 up.
pub proof fn law_exhausts_retries<T, E>(retries: nat, outcomes: Seq<RetryResult<T, E>>)
    requires
        retries <= u32::MAX,
        outcomes.len() == retries + 1,
        all_retry(outcomes),
    ensures
        call_run(retries, 0, outcomes) == Some((retries + 1, Err::<T, E>(outcomes.last()->Retry_0))),
        call_pauses(retries, 0, outcomes) == Seq::new(retries, |i: int| i as nat),
{
    lemma_call_all_retry(retries, 0, outcomes);
}

proof fn lemma_call_all_retry<T, E>(retries: nat, retry: nat, outcomes: Seq<RetryResult<T, E>>)
    requires
        retry <= retries <= u32::MAX,
        outcomes.len() == retries - retry + 1,
        all_retry(outcomes),
    ensures
        call_run(retries, retry, outcomes) == Some(
            (outcomes.len(), Err::<T, E>(outcomes.last()->Retry_0)),
        ),
        call_pauses(retries, retry, outcomes) == Seq::new(
            (outcomes.len() - 1) as nat,
            |i: int| (retry + i) as nat,
        ),
    decreases outcomes.len(),
{
    assert(outcomes[0] is Retry);
    if outcomes.len() > 1 {
        let rest = outcomes.drop_first();
        assert forall|i: int| 0 <= i < rest.len() implies #[trigger] rest[i] is Retry by {
            assert(rest[i] == outcomes[i + 1]);
        }
        lemma_call_all_retry(retries, retry + 1, rest);
        assert(rest.last() == outcomes.last());
    }
    assert(call_pauses(retries, retry, outcomes) =~= Seq::new(
        (outcomes.len() - 1) as nat,
        |i: int| (retry + i) as nat,
    ));
}

/// A call whose first `k - 1` attempts fail with retryable errors and whose
/// `k`-th attempt succeeds, with `k - 1` within the retries allowed, ends after
/// `k` attempts with that success.
pub proof fn law_succeeds_on_attempt<T, E>(
    retries: nat,
    failures: Seq<RetryResult<T, E>>,
    value: T,
)
    requires
        retries <= u32::MAX,
        failures.len() <= retries,
        all_retry(failures),
    ensures
        call_run(retries, 0, failures.push(RetryResult::Done(value))) == Some(
            (failures.len() + 1, Ok::<T, E>(value)),
        ),
{
    lemma_call_success_after(retries, 0, failures, value);
}

proof fn lemma_call_success_after<T, E>(
    retries: nat,
    retry: nat,
    failures: Seq<RetryResult<T, E>>,
    value: T,
)
    requires
        retry + failures.len() <= retries <= u32::MAX,
        all_retry(failures),
    ensures
        call_run(retries, retry, failures.push(RetryResult::Done(value))) == Some(
            (failures.len() + 1, Ok::<T, E>(value)),
        ),
    decreases failures.len(),
{
    let outcomes = failures.push(RetryResult::Done(value));
    if failures.len() > 0 {
        assert(outcomes[0] == failures[0]);
        assert(failures[0] is Retry);
        let rest = failures.drop_first();
        assert forall|i: int| 0 <= i < rest.len() implies #[trigger] rest[i] is Retry by {
            assert(rest[i] == failures[i + 1]);
        }
        assert(outcomes.drop_first() =~= rest.push(RetryResult::Done(value)));
        lemma_call_success_after(retries, retry + 1, rest, value);
    } else {
        assert(outcomes[0] == RetryResult::<T, E>::Done(value));
    }
}

/// An error that must not be retried ends the call at once, with that error.
pub proof fn law_dont_retry_stops<T, E>(
    retries: nat,
    retry: nat,
    outcomes: Seq<RetryResult<T, E>>,
)
    requires
        outcomes.len() > 0,
        outcomes[0] is DontRetry,
    ensures
        call_run(retries, retry, outcomes) == Some((1nat, Err::<T, E>(outcomes[0]->DontRetry_0))),
        call_pauses(retries, retry, outcomes) == Seq::<nat>::empty(),
{
}

/// Whatever the call answers, it is attempted at most once more than the
/// retries it allows: once it has seen that many outcomes, it has finished.
pub proof fn law_bounded_attempts<T, E>(
    retries: nat,
    retry: nat,
    outcomes: Seq<RetryResult<T, E>>,
)
    requires
        retry <= retries,
    ensures
        call_run(retries, retry, outcomes) matches Some((n, _)) ==> n <= retries - retry + 1,
        outcomes.len() > retries - retry ==> call_run(retries, retry, outcomes) is Some,
    decreases outcomes.len(),
{
    if outcomes.len() > 0 {
        let (t, s) = next_call_step(retries, retry, outcomes[0]);
        if s is Again {
            law_bounded_attempts(retries, t, outcomes.drop_first());
        }
    }
}

/// Whether attempt `k` (counted from 0) is the one that ends a guarded call
/// allowing `retries` retries: every attempt before it failed with a
/// retryable error, and it either did not, or no retry is left after it.
pub open spec fn call_ends_at<T, E>(retries: nat, outcomes: Seq<RetryResult<T, E>>, k: nat) -> bool {
    &&& k < outcomes.len()
    &&& k <= retries
    &&& forall|i: int| 0 <= i < k ==> #[trigger] outcomes[i] is Retry
    &&& (!(outcomes[k as int] is Retry) || k == retries)
}

/// Whatever the outcomes, a guarded call ends on the first attempt that does
/// not fail with a retryable error, or once its retries are used up: it
/// answers that attempt's success or error after `k + 1` attempts, having
/// paused after each failed attempt before it with the pauses numbered from 0 up.
pub proof fn law_call_run<T, E>(retries: nat, outcomes: Seq<RetryResult<T, E>>, k: nat)
    requires
        retries <= u32::MAX,
        call_ends_at(retries, outcomes, k),
    ensures
        call_run(retries, 0, outcomes) == Some((k + 1, result_of(outcomes[k as int]))),
        call_pauses(retries, 0, outcomes) == Seq::new(k, |i: int| i as nat),
{
    lemma_call_run_from(retries, 0, outcomes, k);
}

proof fn lemma_call_run_from<T, E>(
    retries: nat,
    retry: nat,
    outcomes: Seq<RetryResult<T, E>>,
    k: nat,
)
    requires
        retry + k <= retries <= u32::MAX,
        k < outcomes.len(),
        forall|i: int| 0 <= i < k ==> #[trigger] outcomes[i] is Retry,
        !(outcomes[k as int] is Retry) || retry + k == retries,
    ensures
        call_run(retries, retry, outcomes) == Some((k + 1, result_of(outcomes[k as int]))),
        call_pauses(retries, retry, outcomes) == Seq::new(k, |i: int| (retry + i) as nat),
    decreases k,
{
    if k > 0 {
        assert(outcomes[0] is Retry);
        let rest = outcomes.drop_first();
        assert forall|i: int| 0 <= i < k - 1 implies #[trigger] rest[i] is Retry by {
            assert(rest[i] == outcomes[i + 1]);
        }
        assert(rest[k - 1] == outcomes[k as int]);
        lemma_call_run_from(retries, retry + 1, rest, (k - 1) as nat);
    }
    assert(call_pauses(retries, retry, outcomes) =~= Seq::new(k, |i: int| (retry + i) as nat));
}

} // verus!
