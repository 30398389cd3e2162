//! Retry loops with configurable backoff, and a circuit breaker.
//!
//! The waiting itself (sleeping, awaiting futures) happens outside this crate:
//! every decision a retry loop or a circuit breaker makes is taken by the
//! verified state machines and delay computations defined here.
//!
//! - [`retry`]: attempts counted in `u32`, errors that may or may not be
//!   retried, and shared backoff strategies.
//! - [`simple`]: attempts counted in `usize`, with a backoff strategy that
//!   may change state as it answers.
//! - [`blocking`]: a retry loop without pauses that runs the task itself.
//! - [`circuit_breaker`]: a circuit that opens, half opens and closes, and
//!   the strategy that decides when it should.
//! - [`delay`]: spans of time as plain values.

pub mod blocking;
pub mod circuit_breaker;
pub mod delay;
pub mod retry;
pub mod simple;

pub use crate::delay::Delay;
