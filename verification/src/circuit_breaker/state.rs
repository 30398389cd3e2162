//! The circuit state cell, which breakers derived from one another share.

use std::sync::atomic::{AtomicI8, Ordering};
use vstd::prelude::*;

verus! {

/// The three states of a circuit.
#[derive(Clone, Copy, Debug, PartialEq, Eq, Structural)]
pub enum CircuitState {
    Closed,
    Open,
    HalfOpen,
}

/// The code that the cell holds for a state.
pub open spec fn code_of(state: CircuitState) -> i8 {
    match state {
        CircuitState::Closed => 0,
        CircuitState::Open => 1,
        CircuitState::HalfOpen => 2,
    }
}

impl CircuitState {
    /// The code that the cell holds for this state.
    pub fn code(self) -> (c: i8)
        ensures
            c == code_of(self),
    {
        match self {
            CircuitState::Closed => 0,
            CircuitState::Open => 1,
            CircuitState::HalfOpen => 2,
        }
    }
}

/// Whether the code `code` read from the cell stands for `state`.
pub fn code_is(code: i8, state: CircuitState) -> (b: bool)
    ensures
        b == (code == code_of(state)),
{
    code == state.code()
}

/// Holds the code of the circuit's state, for every breaker that shares it.
/// What the cell holds is not modelled: any thread may change it through a
/// shared reference.
pub struct CircuitBreakerInner {
    state: AtomicI8,
}

impl CircuitBreakerInner {
    /// A cell holding a closed circuit.
    pub fn new() -> Self {
        Self { state: AtomicI8::new(CircuitState::Closed.code()) }
    }

    /// The code held now.
    pub fn load(&self) -> i8 {
        self.state.load(Ordering::Relaxed)
    }

    /// Holds the code of `state` from now on.
    pub fn store(&self, state: CircuitState) {
        self.state.store(state.code(), Ordering::Release)
    }
}

} // verus!
