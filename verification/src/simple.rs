//! A retry controller that counts attempts in `usize` and keeps one backoff
//! strategy of its own, which may change state as it answers.
//!
//! As in [`crate::retry`], the loop itself is left to the caller: it feeds
//! each outcome to [`Attempts::record`] and pauses as [`Retry::pause`] says.

pub mod exponential_backoff;
pub mod full_jitter_exponential_backoff;
pub mod regular_interval_backoff;

pub use exponential_backoff::ExponentialBackoff;
pub use full_jitter_exponential_backoff::FullJitterExponentialBackoff;
pub use regular_interval_backoff::RegularIntervalBackoff;

use crate::delay::Delay;
use vstd::prelude::*;

verus! {

/// A strategy that decides how long to pause between two attempts.
pub trait Backoff: Sized {
    /// Whether a strategy in this state, asked for the pause after failed
    /// attempt `retry`, may answer `pause` and move to state `after`.
    spec fn answers(self, retry: usize, after: Self, pause: Option<Delay>) -> bool;

    /// The pause after failed attempt number `retry`, before the next attempt;
    /// `None` where the strategy's arithmetic overflows.
    fn wait(&mut self, retry: usize) -> (r: Option<Delay>)
        ensures
            old(self).answers(retry, *final(self), r),
    ;
}

/// A strategy that never pauses.
pub struct NoOpBackoff;

impl Backoff for NoOpBackoff {
    /// Always a pause of zero, and no change of state.
    open spec fn answers(self, retry: usize, after: Self, pause: Option<Delay>) -> bool {
        &&& after == self
        &&& pause matches Some(d) && d@ == 0
    }

    fn wait(&mut self, _retry: usize) -> (r: Option<Delay>)
        ensures
            r matches Some(d) && d@ == 0,
    {
        Some(Delay::zero())
    }
}

/// What one attempt of a task produced.
pub enum RetryResult<T, E> {
    /// The attempt succeeded with this value.
    Done(T),
    /// The attempt failed with this error.
    Error(E),
}

/// What a retry loop does after an attempt.
pub enum Step<T, E> {
    /// The loop ends with this result.
    Finish(Result<T, E>),
    /// Failed attempt number `retry` is followed by a pause, then a new attempt.
    Again { retry: usize },
}

/// One step of the loop: given the number of attempts allowed and the number
/// of failed attempts so far, the new count of failed attempts and the step.
pub open spec fn next_step<T, E>(retries: nat, tries: nat, outcome: RetryResult<T, E>) -> (
    nat,
    Step<T, E>,
) {
    match outcome {
        RetryResult::Error(err) => if tries + 1 >= retries {
            (tries, Step::Finish(Err(err)))
        } else {
            ((tries + 1) as nat, Step::Again { retry: (tries + 1) as usize })
        },
        RetryResult::Done(v) => (tries, Step::Finish(Ok(v))),
    }
}

/// Feeds `outcomes` to a loop that has seen `tries` failed attempts. Where
/// the loop finishes on one of them, the number of outcomes it consumed and
/// its result; `None` where it is still running after the last one.
pub open spec fn run<T, E>(retries: nat, tries: nat, outcomes: Seq<RetryResult<T, E>>) -> Option<
    (nat, Result<T, E>),
>
    decreases outcomes.len(),
{
    if outcomes.len() == 0 {
        None
    } else {
        match next_step(retries, tries, outcomes[0]).1 {
            Step::Finish(result) => Some((1, result)),
            Step::Again { .. } => match run(
                retries,
                next_step(retries, tries, outcomes[0]).0,
                outcomes.drop_first(),
            ) {
                Some((n, result)) => Some((n + 1, result)),
                None => None,
            },
        }
    }
}

/// The retry numbers of the pauses that the loop makes while it consumes `outcomes`.
pub open spec fn pauses<T, E>(retries: nat, tries: nat, outcomes: Seq<RetryResult<T, E>>) -> Seq<
    nat,
>
    decreases outcomes.len(),
{
    if outcomes.len() == 0 {
        Seq::empty()
    } else {
        match next_step(retries, tries, outcomes[0]).1 {
            Step::Finish(_) => Seq::empty(),
            Step::Again { retry } => seq![retry as nat] + pauses(
                retries,
                next_step(retries, tries, outcomes[0]).0,
                outcomes.drop_first(),
            ),
        }
    }
}

/// The state of one retry loop: how many attempts it allows, and how many
/// have failed so far.
pub struct Attempts {
    retries: usize,
    tries: usize,
}

impl Attempts {
    #[verifier::type_invariant]
    spec fn inv(self) -> bool {
        self.tries < self.retries || self.tries == 0
    }

    /// The number of attempts the loop allows.
    pub closed spec fn allowed(self) -> nat {
        self.retries as nat
    }

    /// The number of attempts that failed so far.
    pub closed spec fn failed(self) -> nat {
        self.tries as nat
    }

    /// A fresh loop state that allows `retries` attempts.
    pub fn new(retries: usize) -> (a: Attempts)
        ensures
            a.allowed() == retries,
            a.failed() == 0,
    {
        Attempts { retries, tries: 0 }
    }

    /// Takes the outcome of the latest attempt and decides what comes next.
    pub fn record<T, E>(&mut self, outcome: RetryResult<T, E>) -> (s: Step<T, E>)
        ensures
            final(self).allowed() == old(self).allowed(),
            (final(self).failed(), s) == next_step(old(self).allowed(), old(self).failed(), outcome),
    {
        proof {
            use_type_invariant(&*self);
        }
        match outcome {
            RetryResult::Error(err) => {
                if self.tries + 1 >= self.retries {
                    Step::Finish(Err(err))
                } else {
                    self.tries = self.tries + 1;
                    Step::Again { retry: self.tries }
                }
            },
            RetryResult::Done(v) => Step::Finish(Ok(v)),
        }
    }
}

/// Retry configuration: how many attempts, and the strategy that decides the
/// pause between them. Until a strategy is set, calls never pause. The type
/// of the strategy is fixed when the configuration is made; the strategy
/// itself is set, and replaced, by [`Retry::backoff`].
pub struct Retry<B = NoOpBackoff> {
    retries: usize,
    backoff: Option<B>,
}

impl<B> Retry<B> {
    /// The number of attempts a call makes at most.
    pub closed spec fn attempts_allowed(self) -> nat {
        self.retries as nat
    }

    /// The backoff strategy, where one is set.
    pub closed spec fn strategy(self) -> Option<B> {
        self.backoff
    }

    /// One attempt, and no strategy: calls never pause.
    pub fn new() -> (r: Self)
        ensures
            r.attempts_allowed() == 1,
            r.strategy() is None,
    {
        Retry { retries: 1, backoff: None }
    }
}

impl<B: Backoff> Retry<B> {
    /// Sets the number of attempts; `n` must be positive.
    pub fn retries(&mut self, n: usize) -> (r: &mut Self)
        requires
            n > 0,
        ensures
            r.attempts_allowed() == n,
            r.strategy() == old(self).strategy(),
            *final(self) == *final(r),
    {
        self.retries = n;
        self
    }

    /// Sets the backoff strategy to `b`, in place of the one before.
    pub fn backoff(&mut self, b: B) -> (r: &mut Self)
        ensures
            r.attempts_allowed() == old(self).attempts_allowed(),
            r.strategy() == Some(b),
            *final(self) == *final(r),
    {
        self.backoff = Some(b);
        self
    }

    /// A fresh loop state for one call.
    pub fn attempts(&self) -> (a: Attempts)
        ensures
            a.allowed() == self.attempts_allowed(),
            a.failed() == 0,
    {
        Attempts::new(self.retries)
    }

    /// The pause after failed attempt `retry`: zero where no strategy is set,
    /// else what the strategy answers, the strategy moving to the state it
    /// answers from.
    pub fn pause(&mut self, retry: usize) -> (r: Option<Delay>)
        ensures
            final(self).attempts_allowed() == old(self).attempts_allowed(),
            old(self).strategy() is None ==> final(self).strategy() is None && (r matches Some(d)
                && d@ == 0),
            old(self).strategy() matches Some(b) ==> final(self).strategy() is Some && b.answers(
                retry,
                final(self).strategy().unwrap(),
                r,
            ),
    {
        match &mut self.backoff {
            Some(b) => b.wait(retry),
            None => Some(Delay::zero()),
        }
    }
}

/// Whether every outcome in `outcomes` is an error.
pub open spec fn all_errors<T, E>(outcomes: Seq<RetryResult<T, E>>) -> bool {
    forall|i: int| 0 <= i < outcomes.len() ==> #[trigger] outcomes[i] is Error
}

/// A loop that only ever sees errors makes exactly as many attempts as it
/// allows and ends with the last error.
pub proof fn law_exhausts_attempts<T, E>(retries: nat, outcomes: Seq<RetryResult<T, E>>)
    requires
        0 < retries <= usize::MAX,
        outcomes.len() == retries,
        all_errors(outcomes),
    ensures
        run(retries, 0, outcomes) == Some((retries, Err::<T, E>(outcomes.last()->Error_0))),
{
    lemma_all_errors(retries, 0, outcomes);
}

proof fn lemma_all_errors<T, E>(retries: nat, tries: nat, outcomes: Seq<RetryResult<T, E>>)
    requires
        tries < retries <= usize::MAX,
        outcomes.len() == retries - tries,
        all_errors(outcomes),
    ensures
        run(retries, tries, outcomes) == Some((outcomes.len(), Err::<T, E>(outcomes.last()->Error_0))),
    decreases outcomes.len(),
{
    assert(outcomes[0] is Error);
    if outcomes.len() > 1 {
        let rest = outcomes.drop_first();
        assert forall|i: int| 0 <= i < rest.len() implies #[trigger] rest[i] is Error by {
            assert(rest[i] == outcomes[i + 1]);
        }
        lemma_all_errors(retries, tries + 1, rest);
        assert(rest.last() == outcomes.last());
    }
}

/// A task whose first `k - 1` attempts fail and whose `k`-th attempt succeeds,
/// with `k` within the attempts allowed, makes the loop end after `k` attempts
/// with that success.
pub proof fn law_succeeds_on_attempt<T, E>(
    retries: nat,
    failures: Seq<RetryResult<T, E>>,
    value: T,
)
    requires
        0 < retries <= usize::MAX,
        failures.len() < retries,
        all_errors(failures),
    ensures
        run(retries, 0, failures.push(RetryResult::Done(value))) == Some(
            (failures.len() + 1, Ok::<T, E>(value)),
        ),
{
    lemma_success_after(retries, 0, failures, value);
}

proof fn lemma_success_after<T, E>(
    retries: nat,
    tries: nat,
    failures: Seq<RetryResult<T, E>>,
    value: T,
)
    requires
        tries + failures.len() < retries <= usize::MAX,
        all_errors(failures),
    ensures
        run(retries, tries, failures.push(RetryResult::Done(value))) == Some(
            (failures.len() + 1, Ok::<T, E>(value)),
        ),
    decreases failures.len(),
{
    let outcomes = failures.push(RetryResult::Done(value));
    if failures.len() > 0 {
        assert(outcomes[0] == failures[0]);
        assert(failures[0] is Error);
        let rest = failures.drop_first();
        assert forall|i: int| 0 <= i < rest.len() implies #[trigger] rest[i] is Error by {
            assert(rest[i] == failures[i + 1]);
        }
        assert(outcomes.drop_first() =~= rest.push(RetryResult::Done(value)));
        lemma_success_after(retries, tries + 1, rest, value);
    } else {
        assert(outcomes[0] == RetryResult::<T, E>::Done(value));
    }
}

/// Whatever the task answers, the loop never makes more attempts than it
/// allows: once it has seen that many outcomes, it has finished.
pub proof fn law_bounded_attempts<T, E>(
    retries: nat,
    tries: nat,
    outcomes: Seq<RetryResult<T, E>>,
)
    requires
        tries < retries,
    ensures
        run(retries, tries, outcomes) matches Some((n, _)) ==> n <= retries - tries,
        outcomes.len() >= retries - tries ==> run(retries, tries, outcomes) is Some,
    decreases outcomes.len(),
{
    if outcomes.len() > 0 {
        let (t, s) = next_step(retries, tries, outcomes[0]);
        if s is Again {
            law_bounded_attempts(retries, t, outcomes.drop_first());
        }
    }
}

/// After failed attempts that were all errors, one more outcome either ends
/// the loop, as the step on it says, or leaves it running.
pub proof fn lemma_run_after_errors<T, E>(
    retries: nat,
    tries: nat,
    failures: Seq<RetryResult<T, E>>,
    outcome: RetryResult<T, E>,
)
    requires
        tries + failures.len() < retries,
        all_errors(failures),
    ensures
        run(retries, tries, failures.push(outcome)) == match next_step(
            retries,
            tries + failures.len(),
            outcome,
        ).1 {
            Step::Finish(r) => Some((failures.len() + 1, r)),
            Step::Again { .. } => None,
        },
    decreases failures.len(),
{
    let outcomes = failures.push(outcome);
    if failures.len() > 0 {
        assert(outcomes[0] == failures[0]);
        assert(failures[0] is Error);
        let rest = failures.drop_first();
        assert forall|i: int| 0 <= i < rest.len() implies #[trigger] rest[i] is Error by {
            assert(rest[i] == failures[i + 1]);
        }
        assert(outcomes.drop_first() =~= rest.push(outcome));
        lemma_run_after_errors(retries, tries + 1, rest, outcome);
    } else {
        assert(outcomes[0] == outcome);
        assert(outcomes.drop_first() =~= Seq::<RetryResult<T, E>>::empty());
        assert(run(retries, next_step(retries, tries, outcome).0, outcomes.drop_first()) is None);
    }
}

/// The result that an outcome ends a loop with.
pub open spec fn result_of<T, E>(outcome: RetryResult<T, E>) -> Result<T, E> {
    match outcome {
        RetryResult::Error(err) => Err(err),
        RetryResult::Done(v) => Ok(v),
    }
}

/// Whether attempt `k` (counted from 0) is the one that ends a loop allowing
/// `retries` attempts: every attempt before it failed, and it either
/// succeeded or is the last attempt allowed.
pub open spec fn ends_at<T, E>(retries: nat, outcomes: Seq<RetryResult<T, E>>, k: nat) -> bool {
    &&& k < outcomes.len()
    &&& k < retries
    &&& forall|i: int| 0 <= i < k ==> #[trigger] outcomes[i] is Error
    &&& (outcomes[k as int] is Done || k + 1 == retries)
}

/// Whatever the outcomes, the loop ends on the first attempt that succeeds,
/// or on the last attempt allowed, and answers that attempt's value or error
/// after `k + 1` attempts, having paused after each failed attempt before it
/// with the pauses numbered from 1 up.
pub proof fn law_run<T, E>(retries: nat, outcomes: Seq<RetryResult<T, E>>, k: nat)
    requires
        retries <= usize::MAX,
        ends_at(retries, outcomes, k),
    ensures
        run(retries, 0, outcomes) == Some((k + 1, result_of(outcomes[k as int]))),
        pauses(retries, 0, outcomes) == Seq::new(k, |i: int| (i + 1) as nat),
{
    lemma_run_from(retries, 0, outcomes, k);
}

proof fn lemma_run_from<T, E>(retries: nat, tries: nat, outcomes: Seq<RetryResult<T, E>>, k: nat)
    requires
        tries + k < retries <= usize::MAX,
        k < outcomes.len(),
        forall|i: int| 0 <= i < k ==> #[trigger] outcomes[i] is Error,
        outcomes[k as int] is Done || tries + k + 1 == retries,
    ensures
        run(retries, tries, outcomes) == Some((k + 1, result_of(outcomes[k as int]))),
        pauses(retries, tries, outcomes) == Seq::new(k, |i: int| (tries + 1 + i) as nat),
    decreases k,
{
    if k > 0 {
        assert(outcomes[0] is Error);
        let rest = outcomes.drop_first();
        assert forall|i: int| 0 <= i < k - 1 implies #[trigger] rest[i] is Error by {
            assert(rest[i] == outcomes[i + 1]);
        }
        assert(rest[k - 1] == outcomes[k as int]);
        lemma_run_from(retries, tries + 1, rest, (k - 1) as nat);
    }
    assert(pauses(retries, tries, outcomes) =~= Seq::new(k, |i: int| (tries + 1 + i) as nat));
}

/// Setting the number of attempts and the backoff strategy commutes: a
/// configuration is determined by its number of attempts and its strategy,
/// so two configurations that [`Retry::retries`] and [`Retry::backoff`] leave
/// with the same attempts and the same strategy, in whichever order they were
/// called, are the same configuration.
pub proof fn law_builders_commute<B>(first: Retry<B>, second: Retry<B>, n: nat, b: B)
    requires
        first.attempts_allowed() == n,
        first.strategy() == Some(b),
        second.attempts_allowed() == n,
        second.strategy() == Some(b),
    ensures
        first == second,
{
}

} // verus!
