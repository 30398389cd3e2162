//! A retry controller without pauses, which runs the task itself.

use crate::simple::{
    all_errors, ends_at, law_run, lemma_run_after_errors, result_of, run, Attempts, Step,
};
use vstd::prelude::*;

pub use crate::simple::RetryResult;

verus! {

/// The outcome that a plain `Result` stands for.
pub open spec fn outcome_of<T, E>(input: Result<T, E>) -> RetryResult<T, E> {
    match input {
        Err(err) => RetryResult::Error(err),
        Ok(v) => RetryResult::Done(v),
    }
}

/// Retry configuration: how many times the task is attempted at most.
pub struct Retry {
    retries: usize,
}

impl Retry {
    #[verifier::type_invariant]
    spec fn inv(self) -> bool {
        0 < self.retries
    }

    /// The number of attempts a call makes at most.
    pub closed spec fn attempts_allowed(self) -> nat {
        self.retries as nat
    }

    /// One attempt.
    pub fn new() -> (r: Self)
        ensures
            r.attempts_allowed() == 1,
    {
        Retry { retries: 1 }
    }

    /// The same configuration with `n` attempts; `n` must be positive.
    pub fn retries(&self, n: usize) -> (r: Self)
        requires
            n > 0,
        ensures
            r.attempts_allowed() == n,
    {
        Self { retries: n }
    }

    /// Runs `f` until it succeeds or the attempts allowed are used up, and
    /// answers its success or its last error, beside the record of what each
    /// call of `f` answered, in order. `f` is given the number of the attempt,
    /// counted from 0: entry `i` is what the call `f(i)` answered, and the
    /// retry loop finishes exactly at the last entry.
    pub fn exec<T, E, F: FnMut(usize) -> Result<T, E>>(&self, mut f: F) -> (out: (
        Result<T, E>,
        Ghost<Seq<Result<T, E>>>,
    ))
        requires
            forall|i: usize| #[trigger] call_requires(f, (i,)),
        ensures
            1 <= out.1@.len() <= self.attempts_allowed(),
            forall|i: int|
                0 <= i < out.1@.len() ==> call_ensures(f, (i as usize,), #[trigger] out.1@[i]),
            run(self.attempts_allowed(), 0, out.1@.map_values(|x: Result<T, E>| outcome_of(x)))
                == Some((out.1@.len(), out.0)),
    {
        proof {
            use_type_invariant(self);
        }
        let mut attempts = Attempts::new(self.retries);
        let mut attempt: usize = 0;
        let ghost mut results: Seq<Result<T, E>> = Seq::empty();
        let ghost task = f;
        #[verifier::loop_isolation(false)]
        loop
            invariant
                f == task,
                forall|i: usize| #[trigger] call_requires(f, (i,)),
                attempt == results.len(),
                0 < self.attempts_allowed(),
                attempts.allowed() == self.attempts_allowed(),
                attempts.failed() == results.len(),
                results.len() < self.attempts_allowed(),
                forall|i: int|
                    0 <= i < results.len() ==> call_ensures(f, (i as usize,), #[trigger] results[i]),
                forall|i: int| 0 <= i < results.len() ==> #[trigger] results[i] is Err,
            decreases self.attempts_allowed() - attempts.failed(),
        {
            let result = f(attempt);
            let ghost before = results;
            proof {
                results = results.push(result);
            }
            let outcome = match result {
                Err(err) => RetryResult::Error(err),
                Ok(v) => RetryResult::Done(v),
            };
            let ghost seen = outcome;
            let step = attempts.record(outcome);
            proof {
                let failures = before.map_values(|x: Result<T, E>| outcome_of(x));
                assert forall|i: int| 0 <= i < failures.len() implies #[trigger] failures[i] is Error by {
                    assert(before[i] is Err);
                }
                assert(results.map_values(|x: Result<T, E>| outcome_of(x)) =~= failures.push(seen));
                lemma_run_after_errors(self.attempts_allowed(), 0, failures, seen);
            }
            match step {
                Step::Finish(r) => {
                    return (r, Ghost(results));
                },
                Step::Again { .. } => {
                    attempt = attempt + 1;
                },
            }
        }
    }

    /// Runs `f` until it answers [`RetryResult::Done`] or the attempts allowed
    /// are used up, and answers its value or its last error, beside the record
    /// of what each call of `f` answered, in order. `f` is given the number of
    /// the attempt, counted from 0: entry `i` is what the call `f(i)` answered,
    /// and the retry loop finishes exactly at the last entry.
    pub fn exec_with<T, E, F: FnMut(usize) -> RetryResult<T, E>>(&self, mut f: F) -> (out: (
        Result<T, E>,
        Ghost<Seq<RetryResult<T, E>>>,
    ))
        requires
            forall|i: usize| #[trigger] call_requires(f, (i,)),
        ensures
            1 <= out.1@.len() <= self.attempts_allowed(),
            forall|i: int|
                0 <= i < out.1@.len() ==> call_ensures(f, (i as usize,), #[trigger] out.1@[i]),
            run(self.attempts_allowed(), 0, out.1@) == Some((out.1@.len(), out.0)),
    {
        proof {
            use_type_invariant(self);
        }
        let mut attempts = Attempts::new(self.retries);
        let mut attempt: usize = 0;
        let ghost mut outcomes: Seq<RetryResult<T, E>> = Seq::empty();
        let ghost task = f;
        #[verifier::loop_isolation(false)]
        loop
            invariant
                f == task,
                forall|i: usize| #[trigger] call_requires(f, (i,)),
                attempt == outcomes.len(),
                0 < self.attempts_allowed(),
                attempts.allowed() == self.attempts_allowed(),
                attempts.failed() == outcomes.len(),
                outcomes.len() < self.attempts_allowed(),
                forall|i: int|
                    0 <= i < outcomes.len() ==> call_ensures(f, (i as usize,), #[trigger] outcomes[i]),
                all_errors(outcomes),
            decreases self.attempts_allowed() - attempts.failed(),
        {
            let outcome = f(attempt);
            let ghost before = outcomes;
            let ghost seen = outcome;
            proof {
                outcomes = outcomes.push(outcome);
            }
            let step = attempts.record(outcome);
            proof {
                lemma_run_after_errors(self.attempts_allowed(), 0, before, seen);
            }
            match step {
                Step::Finish(r) => {
                    return (r, Ghost(outcomes));
                },
                Step::Again { .. } => {
                    attempt = attempt + 1;
                },
            }
        }
    }
}

/// What the record of a call of [`Retry::exec_with`] says: the task is called
/// until the first attempt that succeeds, or the last attempt allowed, and no
/// further; the call answers that attempt's value or error.
pub proof fn law_exec_stops_at_first_end<T, E>(
    allowed: nat,
    record: Seq<RetryResult<T, E>>,
    r: Result<T, E>,
    k: nat,
)
    requires
        allowed <= usize::MAX,
        run(allowed, 0, record) == Some((record.len(), r)),
        ends_at(allowed, record, k),
    ensures
        record.len() == k + 1,
        r == result_of(record[k as int]),
{
    law_run(allowed, record, k);
}

} // verus!
