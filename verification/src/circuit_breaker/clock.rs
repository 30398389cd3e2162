//! A source of elapsed time.

use std::time::{Duration, Instant};
use vstd::prelude::*;

verus! {

#[verifier::external_type_specification]
#[verifier::external_body]
pub struct ExInstant(std::time::Instant);

/// Tells how much time has passed.
pub trait Clock {
    /// The time elapsed since `since`.
    fn time_elapsed_since_ms(since: Instant) -> Duration;
}

} // verus!
