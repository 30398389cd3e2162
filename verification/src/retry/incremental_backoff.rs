//! Wait a little longer after each failed attempt.

use crate::delay::{max_delay_nanos, Delay};
use crate::retry::Backoff;
use atomic::Atomic;
use vstd::prelude::*;

verus! {

#[verifier::external_type_specification]
#[verifier::external_body]
#[verifier::reject_recursive_types(T)]
pub struct ExAtomic<T>(atomic::Atomic<T>);

/// Calls `atomic::Atomic::new`, which wraps `v` in a cell that threads can
/// share. What the cell holds is not modelled.
#[verifier::external_body]
fn atomic_delay_new(v: Delay) -> Atomic<Delay> {
    Atomic::new(v)
}

/// Calls `atomic::Atomic::load` with acquire ordering. The value depends on
/// what was last stored, by any thread: nothing is claimed of it.
#[verifier::external_body]
fn atomic_delay_load(cell: &Atomic<Delay>) -> Delay {
    cell.load(atomic::Ordering::Acquire)
}

/// Calls `atomic::Atomic::store` with release ordering.
#[verifier::external_body]
fn atomic_delay_store(cell: &Atomic<Delay>, v: Delay) {
    cell.store(v, atomic::Ordering::Release)
}

/// Waits `wait_for` after the first failed attempt, and `increment_by` more
/// after each further one.
pub struct IncrementalInterval {
    wait_for: Atomic<Delay>,
    increment_by: Delay,
}

impl IncrementalInterval {
    /// The amount that each pause adds to the next one.
    pub closed spec fn increment(self) -> Delay {
        self.increment_by
    }

    /// Starts at `wait_for` and adds `increment_by` after each pause.
    pub fn new(wait_for: Delay, increment_by: Delay) -> (r: Self)
        ensures
            r.increment() == increment_by,
    {
        Self { wait_for: atomic_delay_new(wait_for), increment_by }
    }

    /// The pause that follows a pause of `current`: `None` where the sum
    /// does not fit in a [`Delay`].
    pub fn next_wait(&self, current: Delay) -> (r: Option<Delay>)
        ensures
            r is Some <==> current@ + self.increment()@ <= max_delay_nanos(),
            r matches Some(d) ==> d@ == current@ + self.increment()@,
            self.increment()@ == 0 ==> r == Some(current),
    {
        current.checked_add(&self.increment_by)
    }

    /// The answer of a strategy holding the pause `current`: that pause where
    /// the pause that follows it fits, and else `None`.
    pub open spec fn pause_after(self, current: Delay) -> Option<Delay> {
        if current@ + self.increment()@ <= max_delay_nanos() {
            Some(current)
        } else {
            None
        }
    }

    /// The answer of a strategy that holds the pause `current`.
    pub fn pause_from(&self, current: Delay) -> (r: Option<Delay>)
        ensures
            r == self.pause_after(current),
            self.increment()@ == 0 ==> r == Some(current),
    {
        match self.next_wait(current) {
            Some(_) => Some(current),
            None => None,
        }
    }
}

impl Backoff for IncrementalInterval {
    /// Answers the pause held now; `None` where the pause after it would
    /// overflow. Which pause the cell holds is not modelled: the answer is
    /// that of [`IncrementalInterval::pause_from`] on the pause loaded from the
    /// cell, whatever it is.
    fn wait(&self, _retry: u32) -> (r: Option<Delay>)
        ensures
            exists|current: Delay| r == #[trigger] self.pause_after(current),
            r matches Some(d) ==> d@ + self.increment()@ <= max_delay_nanos(),
            self.increment()@ == 0 ==> r is Some,
    {
        let current = atomic_delay_load(&self.wait_for);
        self.pause_from(current)
    }

    /// Once a pause is over, holds the pause that follows it, where that fits.
    fn waited(&self, _retry: u32, pause: Delay) {
        match self.next_wait(pause) {
            Some(next) => atomic_delay_store(&self.wait_for, next),
            None => {},
        }
    }
}

} // verus!
