//! Strategies that decide when a circuit changes state.

pub mod sequential;
