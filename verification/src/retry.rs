//! The controller that handles retries. The number of attempts and the backoff
//! strategy are configurable.
//!
//! A retry loop alternates between running the task, deciding what to do with
//! its outcome, and pausing. The deciding is done here by [`Attempts::record`];
//! running the task and sleeping belong to the caller, which feeds each outcome
//! to `record` and acts on the [`Step`] it answers.

pub mod exponential_backoff;
pub mod full_jitter_exponential_backoff;
pub mod incremental_backoff;
pub mod regular_interval_backoff;

pub use exponential_backoff::ExponentialBackoff;
pub use full_jitter_exponential_backoff::FullJitterExponentialBackoff;
pub use incremental_backoff::IncrementalInterval;
pub use regular_interval_backoff::RegularIntervalBackoff;

use crate::delay::Delay;
use std::sync::Arc;
use vstd::prelude::*;

verus! {

/// A strategy that decides how long to pause between two attempts.
pub trait Backoff {
    /// The pause after failed attempt number `retry`, before the next attempt;
    /// `None` where the strategy's arithmetic overflows.
    fn wait(&self, retry: u32) -> Option<Delay>;

    /// Called once the pause `pause` after failed attempt `retry` is over.
    fn waited(&self, _retry: u32, _pause: Delay) {
    }
}

/// A strategy that never pauses.
pub struct NoOpBackoff;

impl Backoff for NoOpBackoff {
    fn wait(&self, _retry: u32) -> (r: Option<Delay>)
        ensures
            r matches Some(d) && d@ == 0,
    {
        Some(Delay::zero())
    }
}

/// What one attempt of a task produced.
pub enum RetryResult<T, E> {
    /// The attempt failed, and a later attempt may succeed.
    Retry(E),
    /// The attempt failed for good: no further attempt is made.
    DontRetry(E),
    /// The attempt succeeded with this value.
    Done(T),
}

/// The outcome that a plain `Result` stands for: an error may be retried.
pub open spec fn outcome_of<T, E>(input: Result<T, E>) -> RetryResult<T, E> {
    match input {
        Err(err) => RetryResult::Retry(err),
        Ok(v) => RetryResult::Done(v),
    }
}

impl<T, E> From<Result<T, E>> for RetryResult<T, E> {
    fn from(input: Result<T, E>) -> (r: RetryResult<T, E>) {
        match input {
            Err(err) => RetryResult::Retry(err),
            Ok(v) => RetryResult::Done(v),
        }
    }
}

impl<T, E> vstd::std_specs::convert::FromSpecImpl<Result<T, E>> for RetryResult<T, E> {
    open spec fn obeys_from_spec() -> bool {
        true
    }

    open spec fn from_spec(input: Result<T, E>) -> RetryResult<T, E> {
        outcome_of(input)
    }
}

/// What a retry loop does after an attempt.
pub enum Step<T, E> {
    /// The loop ends with this result.
    Finish(Result<T, E>),
    /// Failed attempt number `retry` is followed by a pause, then a new attempt.
    Again { retry: u32 },
}

/// One step of the loop: given the number of attempts allowed and the number
/// of failed attempts so far, the new count of failed attempts and the step.
pub open spec fn next_step<T, E>(retries: nat, tries: nat, outcome: RetryResult<T, E>) -> (
    nat,
    Step<T, E>,
) {
    match outcome {
        RetryResult::Retry(err) => if tries + 1 >= retries {
            (tries, Step::Finish(Err(err)))
        } else {
            ((tries + 1) as nat, Step::Again { retry: (tries + 1) as u32 })
        },
        RetryResult::DontRetry(err) => (tries, Step::Finish(Err(err))),
        RetryResult::Done(v) => (tries, Step::Finish(Ok(v))),
    }
}

/// Feeds `outcomes` to a loop that has seen `tries` failed attempts. Where
/// the loop finishes on one of them, the number of outcomes it consumed and
/// its result; `None` where it is still running after the last one.
pub open spec fn run<T, E>(retries: nat, tries: nat, outcomes: Seq<RetryResult<T, E>>) -> Option<
    (nat, Result<T, E>),
>
    decreases outcomes.len(),
{
    if outcomes.len() == 0 {
        None
    } else {
        match next_step(retries, tries, outcomes[0]).1 {
            Step::Finish(result) => Some((1, result)),
            Step::Again { .. } => match run(
                retries,
                next_step(retries, tries, outcomes[0]).0,
                outcomes.drop_first(),
            ) {
                Some((n, result)) => Some((n + 1, result)),
                None => None,
            },
        }
    }
}

/// The retry numbers of the pauses that the loop makes while it consumes `outcomes`.
pub open spec fn pauses<T, E>(retries: nat, tries: nat, outcomes: Seq<RetryResult<T, E>>) -> Seq<
    nat,
>
    decreases outcomes.len(),
{
    if outcomes.len() == 0 {
        Seq::empty()
    } else {
        match next_step(retries, tries, outcomes[0]).1 {
            Step::Finish(_) => Seq::empty(),
            Step::Again { retry } => seq![retry as nat] + pauses(
                retries,
                next_step(retries, tries, outcomes[0]).0,
                outcomes.drop_first(),
            ),
        }
    }
}

/// The state of one retry loop: how many attempts it allows, and how many
/// have failed so far.
pub struct Attempts {
    retries: u32,
    tries: u32,
}

impl Attempts {
    #[verifier::type_invariant]
    spec fn inv(self) -> bool {
        0 < self.retries && self.tries < self.retries
    }

    /// The number of attempts the loop allows.
    pub closed spec fn allowed(self) -> nat {
        self.retries as nat
    }

    /// The number of attempts that failed so far.
    pub closed spec fn failed(self) -> nat {
        self.tries as nat
    }

    /// Takes the outcome of the latest attempt and decides what comes next.
    pub fn record<T, E>(&mut self, outcome: RetryResult<T, E>) -> (s: Step<T, E>)
        ensures
            final(self).allowed() == old(self).allowed(),
            (final(self).failed(), s) == next_step(old(self).allowed(), old(self).failed(), outcome),
            final(self).failed() < final(self).allowed(),
    {
        proof {
            use_type_invariant(&*self);
        }
        match outcome {
            RetryResult::Retry(err) => {
                if self.tries + 1 >= self.retries {
                    Step::Finish(Err(err))
                } else {
                    self.tries = self.tries + 1;
                    Step::Again { retry: self.tries }
                }
            },
            RetryResult::DontRetry(err) => Step::Finish(Err(err)),
            RetryResult::Done(v) => Step::Finish(Ok(v)),
        }
    }
}

/// Calls `<Arc<T> as Clone>::clone`, which hands out another pointer to the
/// same allocation: as a value, the clone equals `a`.
#[verifier::external_body]
pub(crate) fn share<T>(a: &Arc<T>) -> (r: Arc<T>)
    ensures
        r == *a,
{
    a.clone()
}

/// Retry configuration: how many attempts, and which pause between them.
/// The type of the backoff strategy is fixed when the configuration is made;
/// the strategy itself is set, and replaced, by [`Retry::backoff`].
pub struct Retry<B = NoOpBackoff> {
    retries: u32,
    backoff: Option<Arc<B>>,
}

impl<B> Retry<B> {
    #[verifier::type_invariant]
    spec fn inv(self) -> bool {
        0 < self.retries
    }

    /// The number of attempts a call makes at most.
    pub closed spec fn attempts_allowed(self) -> nat {
        self.retries as nat
    }

    /// The backoff strategy, where one is set.
    pub closed spec fn strategy(self) -> Option<B> {
        match self.backoff {
            Some(b) => Some(*b),
            None => None,
        }
    }

    /// One attempt and no backoff.
    pub fn new() -> (r: Self)
        ensures
            r.attempts_allowed() == 1,
            r.strategy() is None,
    {
        Self { retries: 1, backoff: None }
    }
}

impl<B: Backoff> Retry<B> {
    /// Sets the number of attempts; `n` must be positive.
    pub fn retries(&mut self, n: u32) -> (r: &mut Self)
        requires
            n > 0,
        ensures
            r.attempts_allowed() == n,
            r.strategy() == old(self).strategy(),
            *final(self) == *final(r),
    {
        self.retries = n;
        self
    }

    /// Sets the backoff strategy to `b`, in place of any set before.
    pub fn backoff(&mut self, b: B) -> (r: &mut Self)
        ensures
            r.attempts_allowed() == old(self).attempts_allowed(),
            r.strategy() == Some(b),
            *final(self) == *final(r),
    {
        proof {
            use_type_invariant(&*self);
        }
        self.backoff = Some(Arc::new(b));
        self
    }

    /// A fresh loop state for one call.
    pub fn attempts(&self) -> (a: Attempts)
        ensures
            a.allowed() == self.attempts_allowed(),
            a.failed() == 0,
    {
        proof {
            use_type_invariant(self);
        }
        Attempts { retries: self.retries, tries: 0 }
    }

    /// The pause after failed attempt `retry`: `None` where no strategy is
    /// set, else what the strategy answers.
    pub fn pause(&self, retry: u32) -> (r: Option<Option<Delay>>)
        ensures
            r is None <==> self.strategy() is None,
            r matches Some(w) ==> call_ensures(B::wait, (&self.strategy().unwrap(), retry), w),
    {
        match &self.backoff {
            Some(b) => Some(b.wait(retry)),
            None => None,
        }
    }

    /// Tells the strategy, where one is set, that the pause `pause` after
    /// failed attempt `retry` is over.
    pub fn paused(&self, retry: u32, pause: Delay)
        ensures
            self.strategy() matches Some(b) ==> call_ensures(B::waited, (&b, retry, pause), ()),
    {
        match &self.backoff {
            Some(b) => b.waited(retry, pause),
            None => {},
        }
    }
}

impl<B> Default for Retry<B> {
    fn default() -> (r: Self)
        ensures
            r.attempts_allowed() == 1,
            r.strategy() is None,
    {
        Self::new()
    }
}

/// Whether every outcome in `outcomes` asks for a retry.
pub open spec fn all_retry<T, E>(outcomes: Seq<RetryResult<T, E>>) -> bool {
    forall|i: int| 0 <= i < outcomes.len() ==> #[trigger] outcomes[i] is Retry
}

/// A loop that only ever sees retryable errors makes exactly as many attempts
/// as it allows, ends with the last error, and pauses after every attempt but
/// the last one, the pauses numbered from 1 up.
pub proof fn law_exhausts_attempts<T, E>(retries: nat, outcomes: Seq<RetryResult<T, E>>)
    requires
        0 < retries <= u32::MAX,
        outcomes.len() == retries,
        all_retry(outcomes),
    ensures
        run(retries, 0, outcomes) == Some((retries, Err::<T, E>(outcomes.last()->Retry_0))),
        pauses(retries, 0, outcomes) == Seq::new((retries - 1) as nat, |i: int| (i + 1) as nat),
{
    lemma_all_retry(retries, 0, outcomes);
}

proof fn lemma_all_retry<T, E>(retries: nat, tries: nat, outcomes: Seq<RetryResult<T, E>>)
    requires
        tries < retries <= u32::MAX,
        outcomes.len() == retries - tries,
        all_retry(outcomes),
    ensures
        run(retries, tries, outcomes) == Some((outcomes.len(), Err::<T, E>(outcomes.last()->Retry_0))),
        pauses(retries, tries, outcomes) == Seq::new(
            (outcomes.len() - 1) as nat,
            |i: int| (tries + 1 + i) as nat,
        ),
    decreases outcomes.len(),
{
    assert(outcomes[0] is Retry);
    if outcomes.len() > 1 {
        let rest = outcomes.drop_first();
        assert forall|i: int| 0 <= i < rest.len() implies #[trigger] rest[i] is Retry by {
            assert(rest[i] == outcomes[i + 1]);
        }
        lemma_all_retry(retries, tries + 1, rest);
        assert(rest.last() == outcomes.last());
        assert(pauses(retries, tries, outcomes) =~= Seq::new(
            (outcomes.len() - 1) as nat,
            |i: int| (tries + 1 + i) as nat,
        ));
    } else {
        assert(pauses(retries, tries, outcomes) =~= Seq::new(
            (outcomes.len() - 1) as nat,
            |i: int| (tries + 1 + i) as nat,
        ));
    }
}

/// A task whose first `k - 1` attempts fail with retryable errors and whose
/// `k`-th attempt succeeds, with `k` within the attempts allowed, makes the loop
/// end after `k` attempts with that success.
pub proof fn law_succeeds_on_attempt<T, E>(
    retries: nat,
    failures: Seq<RetryResult<T, E>>,
    value: T,
)
    requires
        0 < retries <= u32::MAX,
        failures.len() < retries,
        all_retry(failures),
    ensures
        run(retries, 0, failures.push(RetryResult::Done(value))) == Some(
            (failures.len() + 1, Ok::<T, E>(value)),
        ),
{
    lemma_success_after(retries, 0, failures, value);
}

proof fn lemma_success_after<T, E>(
    retries: nat,
    tries: nat,
    failures: Seq<RetryResult<T, E>>,
    value: T,
)
    requires
        tries + failures.len() < retries <= u32::MAX,
        all_retry(failures),
    ensures
        run(retries, tries, failures.push(RetryResult::Done(value))) == Some(
            (failures.len() + 1, Ok::<T, E>(value)),
        ),
    decreases failures.len(),
{
    let outcomes = failures.push(RetryResult::Done(value));
    if failures.len() > 0 {
        assert(outcomes[0] == failures[0]);
        assert(failures[0] is Retry);
        let rest = failures.drop_first();
        assert forall|i: int| 0 <= i < rest.len() implies #[trigger] rest[i] is Retry by {
            assert(rest[i] == failures[i + 1]);
        }
        assert(outcomes.drop_first() =~= rest.push(RetryResult::Done(value)));
        lemma_success_after(retries, tries + 1, rest, value);
    } else {
        assert(outcomes[0] == RetryResult::<T, E>::Done(value));
    }
}

/// An error that must not be retried ends the loop at once, with that error.
pub proof fn law_dont_retry_stops<T, E>(
    retries: nat,
    tries: nat,
    outcomes: Seq<RetryResult<T, E>>,
)
    requires
        outcomes.len() > 0,
        outcomes[0] is DontRetry,
    ensures
        run(retries, tries, outcomes) == Some((1nat, Err::<T, E>(outcomes[0]->DontRetry_0))),
        pauses(retries, tries, outcomes) == Seq::<nat>::empty(),
{
}

/// Whatever the task answers, the loop never makes more attempts than it
/// allows: once it has seen that many outcomes, it has finished.
pub proof fn law_bounded_attempts<T, E>(
    retries: nat,
    tries: nat,
    outcomes: Seq<RetryResult<T, E>>,
)
    requires
        tries < retries,
    ensures
        run(retries, tries, outcomes) matches Some((n, _)) ==> n <= retries - tries,
        outcomes.len() >= retries - tries ==> run(retries, tries, outcomes) is Some,
    decreases outcomes.len(),
{
    if outcomes.len() > 0 {
        let (t, s) = next_step(retries, tries, outcomes[0]);
        if s is Again {
            law_bounded_attempts(retries, t, outcomes.drop_first());
        }
    }
}

/// The result that an outcome ends a loop with.
pub open spec fn result_of<T, E>(outcome: RetryResult<T, E>) -> Result<T, E> {
    match outcome {
        RetryResult::Retry(err) => Err(err),
        RetryResult::DontRetry(err) => Err(err),
        RetryResult::Done(v) => Ok(v),
    }
}

/// Whether attempt `k` (counted from 0) is the one that ends a loop allowing
/// `retries` attempts: every attempt before it failed with a retryable error,
/// and it either did not, or it is the last attempt allowed.
pub open spec fn ends_at<T, E>(retries: nat, outcomes: Seq<RetryResult<T, E>>, k: nat) -> bool {
    &&& k < outcomes.len()
    &&& k < retries
    &&& forall|i: int| 0 <= i < k ==> #[trigger] outcomes[i] is Retry
    &&& (!(outcomes[k as int] is Retry) || k + 1 == retries)
}

/// Whatever the outcomes, the loop ends on the first attempt that does not
/// fail with a retryable error, or on the last attempt allowed: it answers
/// that attempt's success or error, after `k + 1` attempts, having paused
/// after each failed attempt before it with the pauses numbered from 1 up.
pub proof fn law_run<T, E>(retries: nat, outcomes: Seq<RetryResult<T, E>>, k: nat)
    requires
        retries <= u32::MAX,
        ends_at(retries, outcomes, k),
    ensures
        run(retries, 0, outcomes) == Some((k + 1, result_of(outcomes[k as int]))),
        pauses(retries, 0, outcomes) == Seq::new(k, |i: int| (i + 1) as nat),
{
    lemma_run_from(retries, 0, outcomes, k);
}

proof fn lemma_run_from<T, E>(retries: nat, tries: nat, outcomes: Seq<RetryResult<T, E>>, k: nat)
    requires
        tries + k < retries <= u32::MAX,
        k < outcomes.len(),
        forall|i: int| 0 <= i < k ==> #[trigger] outcomes[i] is Retry,
        !(outcomes[k as int] is Retry) || tries + k + 1 == retries,
    ensures
        run(retries, tries, outcomes) == Some((k + 1, result_of(outcomes[k as int]))),
        pauses(retries, tries, outcomes) == Seq::new(k, |i: int| (tries + 1 + i) as nat),
    decreases k,
{
    if k > 0 {
        assert(outcomes[0] is Retry);
        let rest = outcomes.drop_first();
        assert forall|i: int| 0 <= i < k - 1 implies #[trigger] rest[i] is Retry by {
            assert(rest[i] == outcomes[i + 1]);
        }
        assert(rest[k - 1] == outcomes[k as int]);
        lemma_run_from(retries, tries + 1, rest, (k - 1) as nat);
    }
    assert(pauses(retries, tries, outcomes) =~= Seq::new(k, |i: int| (tries + 1 + i) as nat));
}

/// Setting the number of attempts and the backoff strategy commutes: a
/// configuration is determined by its number of attempts and its strategy,
/// so two configurations that [`Retry::retries`] and [`Retry::backoff`] leave
/// with the same attempts and the same strategy, in whichever order they were
/// called, are the same configuration.
pub proof fn law_builders_commute<B>(first: Retry<B>, second: Retry<B>, n: nat, b: B)
    requires
        first.attempts_allowed() == n,
        first.strategy() == Some(b),
        second.attempts_allowed() == n,
        second.strategy() == Some(b),
    ensures
        first == second,
{
}

} // verus!
