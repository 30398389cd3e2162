use resilience::delay::Delay;
use resilience::retry::{
    Backoff, ExponentialBackoff, FullJitterExponentialBackoff, IncrementalInterval, NoOpBackoff,
    RegularIntervalBackoff, Retry, RetryResult, Step,
};
use std::cell::Cell;

/// Runs `f` under `retry` the way an asynchronous caller does, and collects
/// the pauses it is asked to make.
fn drive<B: Backoff, T, E>(
    retry: &Retry<B>,
    mut f: impl FnMut() -> RetryResult<T, E>,
) -> (Result<T, E>, Vec<Option<Delay>>) {
    let mut attempts = retry.attempts();
    let mut pauses = Vec::new();
    loop {
        match attempts.record(f()) {
            Step::Finish(result) => return (result, pauses),
            Step::Again { retry: n } => {
                if let Some(pause) = retry.pause(n) {
                    pauses.push(pause);
                    if let Some(d) = pause {
                        retry.paused(n, d);
                    }
                }
            }
        }
    }
}

fn total(pauses: &[Option<Delay>]) -> u128 {
    pauses
        .iter()
        .map(|p| {
            let d = p.expect("pause overflowed");
            d.as_secs() as u128 * 1_000_000_000 + d.subsec_nanos() as u128
        })
        .sum()
}

#[test]
fn lib_retries_defaults_to_1() {
    let tries = Cell::new(0);
    let mut retry = Retry::new();
    retry.backoff(ExponentialBackoff::recommended());
    let (result, _) = drive(&retry, || {
        tries.set(tries.get() + 1);
        RetryResult::<i32, &str>::from(Err("oops"))
    });
    assert_eq!(Err("oops"), result);
    assert_eq!(1, tries.get());
}

#[test]
fn function_that_returns_result_error_is_returned_if_task_never_succeeds() {
    for num_retries in 1..=1000_u32 {
        let tries = Cell::new(0);
        let mut retry = Retry::new();
        retry.backoff(NoOpBackoff).retries(num_retries);
        let (result, _) = drive(&retry, || {
            tries.set(tries.get() + 1);
            RetryResult::<i32, &str>::from(Err("nope"))
        });
        assert_eq!(Err("nope"), result);
        assert_eq!(tries.get(), num_retries);
    }
}

#[test]
fn function_that_returns_result_exec_succeeds_on_nth_retry() {
    for num_retries in 1..=1000_u32 {
        let tries = Cell::new(0);
        let mut retry = Retry::new();
        retry.backoff(NoOpBackoff).retries(num_retries);
        let (result, _) = drive(&retry, || {
            tries.set(tries.get() + 1);
            if tries.get() == num_retries {
                RetryResult::from(Ok(1))
            } else {
                RetryResult::from(Err("oops"))
            }
        });
        assert_eq!(Ok(1), result);
        assert_eq!(num_retries, tries.get());
    }
}

#[test]
fn function_that_returns_retry_result_error_is_returned_if_task_never_succeeds() {
    for num_retries in 1..=1000_u32 {
        let tries = Cell::new(0);
        let mut retry = Retry::new();
        retry.backoff(NoOpBackoff).retries(num_retries);
        let (result, _): (Result<i32, &str>, _) = drive(&retry, || {
            tries.set(tries.get() + 1);
            RetryResult::Retry("nope")
        });
        assert_eq!(Err("nope"), result);
        assert_eq!(tries.get(), num_retries);
    }
}

#[test]
fn function_that_returns_retry_result_error_is_returned_if_task_cannot_recover() {
    for num_retries in 1..=1000_u32 {
        let tries = Cell::new(0);
        let mut retry = Retry::new();
        retry.backoff(NoOpBackoff).retries(num_retries);
        let (result, _): (Result<i32, &str>, _) = drive(&retry, || {
            tries.set(tries.get() + 1);
            RetryResult::DontRetry("can't recover from this one")
        });
        assert_eq!(Err("can't recover from this one"), result);
        assert_eq!(tries.get(), 1);
    }
}

#[test]
fn function_that_returns_retry_result_exec_succeeds_on_nth_retry() {
    for num_retries in 1..=1000_u32 {
        let tries = Cell::new(0);
        let mut retry = Retry::new();
        retry.backoff(NoOpBackoff).retries(num_retries);
        let (result, _) = drive(&retry, || {
            tries.set(tries.get() + 1);
            if tries.get() == num_retries {
                RetryResult::Done(1)
            } else {
                RetryResult::Retry(String::from("something went wrong"))
            }
        });
        assert_eq!(Ok(1), result);
        assert_eq!(num_retries, tries.get());
    }
}

#[test]
fn exponential_backoff_smoke() {
    let tries = Cell::new(0);
    let mut retry = Retry::new();
    retry.retries(3).backoff(ExponentialBackoff { start: 1, max: 12 });
    let (result, pauses) = drive(&retry, || {
        tries.set(tries.get() + 1);
        if tries.get() == 3 {
            RetryResult::from(Ok(1))
        } else {
            RetryResult::from(Err("oops"))
        }
    });
    assert_eq!(Ok(1), result);
    let elapsed = total(&pauses);
    assert!(elapsed >= 5_000_000_000 && elapsed <= 7_000_000_000);
}

#[test]
fn full_jitter_exponential_backoff_smoke() {
    let tries = Cell::new(0);
    let mut retry = Retry::new();
    retry.retries(3).backoff(FullJitterExponentialBackoff::recommended());
    let (result, pauses) = drive(&retry, || {
        tries.set(tries.get() + 1);
        if tries.get() == 3 {
            RetryResult::from(Ok(1))
        } else {
            RetryResult::<i32, &str>::from(Err("oops"))
        }
    });
    assert_eq!(Ok(1), result);
    for p in pauses {
        let d = p.expect("pause overflowed");
        assert!(d.as_secs() <= 1 && d.subsec_nanos() == 0);
    }
}

#[test]
fn incremental_backoff_smoke() {
    let tries = Cell::new(0);
    let mut retry = Retry::new();
    retry.retries(3).backoff(IncrementalInterval::new(Delay::from_secs(1), Delay::from_secs(1)));
    let (result, pauses) = drive(&retry, || {
        tries.set(tries.get() + 1);
        if tries.get() == 3 {
            RetryResult::from(Ok(1))
        } else {
            RetryResult::<i32, &str>::from(Err("oops"))
        }
    });
    assert_eq!(Ok(1), result);
    let elapsed = total(&pauses);
    assert!(elapsed >= 2_000_000_000 && elapsed <= 4_000_000_000);
}

#[test]
fn regular_interval_backoff_smoke() {
    let tries = Cell::new(0);
    let mut retry = Retry::new();
    retry.retries(3).backoff(RegularIntervalBackoff { wait_for: Delay::from_millis(50) });
    let (result, pauses) = drive(&retry, || {
        tries.set(tries.get() + 1);
        if tries.get() == 3 {
            RetryResult::from(Ok(1))
        } else {
            RetryResult::<i32, &str>::from(Err("oops"))
        }
    });
    assert_eq!(Ok(1), result);
    let elapsed = total(&pauses);
    assert!(elapsed >= 90_000_000 && elapsed <= 110_000_000);
}

#[test]
fn pauses_are_numbered_from_one() {
    let mut retry = Retry::new();
    retry.retries(5).backoff(ExponentialBackoff { start: 1, max: 100 });
    let (result, pauses): (Result<(), &str>, _) = drive(&retry, || RetryResult::Retry("no"));
    assert_eq!(Err("no"), result);
    // 2^1, 2^2, 2^3, 2^4 seconds
    let secs: Vec<u64> = pauses.iter().map(|p| p.unwrap().as_secs()).collect();
    assert_eq!(vec![2, 4, 8, 16], secs);
}

#[test]
fn no_backoff_means_no_pause() {
    let mut retry: Retry = Retry::new();
    retry.retries(4);
    let (result, pauses): (Result<(), &str>, _) = drive(&retry, || RetryResult::Retry("no"));
    assert_eq!(Err("no"), result);
    assert!(pauses.is_empty());
    assert!(retry.pause(1).is_none());
}

#[test]
fn default_is_one_attempt() {
    let retry: Retry = Retry::default();
    let tries = Cell::new(0);
    let (result, _): (Result<(), &str>, _) = drive(&retry, || {
        tries.set(tries.get() + 1);
        RetryResult::Retry("no")
    });
    assert_eq!(Err("no"), result);
    assert_eq!(1, tries.get());
}

#[test]
fn exponential_backoff_caps_at_max() {
    let b = ExponentialBackoff { start: 3, max: 20 };
    assert_eq!(Some(Delay::from_secs(3)), b.wait(0));
    assert_eq!(Some(Delay::from_secs(12)), b.wait(2));
    assert_eq!(Some(Delay::from_secs(20)), b.wait(3));
}

#[test]
fn exponential_backoff_overflows() {
    let b = ExponentialBackoff { start: 1, max: 12 };
    assert_eq!(None, b.wait(32));
    let b = ExponentialBackoff { start: 0x8000_0000, max: 12 };
    assert_eq!(Some(Delay::from_secs(12)), b.wait(0));
    assert_eq!(None, b.wait(1));
    let b = ExponentialBackoff { start: 0, max: 12 };
    assert_eq!(Some(Delay::from_secs(0)), b.wait(31));
    assert_eq!(None, b.wait(40));
}

#[test]
fn recommended_values() {
    let e = ExponentialBackoff::recommended();
    assert_eq!((1, 12), (e.start, e.max));
    let j = FullJitterExponentialBackoff::recommended();
    assert_eq!((1, 12), (j.max, j.start));
}

#[test]
fn full_jitter_stays_within_bound() {
    let b = FullJitterExponentialBackoff { start: 1, max: 100 };
    for retry in 0..6 {
        let bound = b.upper_bound(retry).unwrap();
        assert_eq!(std::cmp::min(100, 1 << retry), bound);
        for _ in 0..50 {
            let d = b.wait(retry).unwrap();
            assert!(d.as_secs() <= bound as u64);
            assert_eq!(0, d.subsec_nanos());
        }
    }
    assert_eq!(None, b.upper_bound(32));
    assert_eq!(None, b.wait(32));
}

#[test]
fn incremental_interval_grows() {
    let b = IncrementalInterval::new(Delay::from_millis(100), Delay::from_millis(250));
    assert_eq!(Some(Delay::from_millis(100)), b.wait(1));
    // the pause grows only once the previous one is over
    assert_eq!(Some(Delay::from_millis(100)), b.wait(1));
    b.waited(1, Delay::from_millis(100));
    assert_eq!(Some(Delay::from_millis(350)), b.wait(2));
    b.waited(2, Delay::from_millis(350));
    assert_eq!(Some(Delay::from_millis(600)), b.wait(7));
    assert_eq!(Some(Delay::from_millis(1100)), b.next_wait(Delay::from_millis(850)));
}

#[test]
fn incremental_interval_overflow() {
    let top = Delay::new(u64::MAX, 999_999_999).unwrap();
    let b = IncrementalInterval::new(top, Delay::from_millis(1));
    assert_eq!(None, b.next_wait(top));
    assert_eq!(None, b.wait(1));
    b.waited(1, top);
    assert_eq!(None, b.wait(1));
}

#[test]
fn from_result() {
    assert!(matches!(RetryResult::<i32, &str>::from(Ok(3)), RetryResult::Done(3)));
    assert!(matches!(RetryResult::<i32, &str>::from(Err("e")), RetryResult::Retry("e")));
}

#[test]
fn no_op_backoff_is_zero() {
    assert_eq!(Some(Delay::zero()), NoOpBackoff.wait(7));
}

#[test]
fn backoff_replaces_the_strategy_in_place() {
    let mut retry = Retry::new();
    retry.retries(3).backoff(ExponentialBackoff { start: 1, max: 100 });
    retry.backoff(ExponentialBackoff { start: 5, max: 100 });
    assert_eq!(Some(Some(Delay::from_secs(10))), retry.pause(1));
}

#[test]
fn run_stops_at_first_unrecoverable_error() {
    let mut retry: Retry = Retry::new();
    retry.retries(10);
    let tries = Cell::new(0);
    let (result, _): (Result<(), i32>, _) = drive(&retry, || {
        tries.set(tries.get() + 1);
        if tries.get() < 4 {
            RetryResult::Retry(tries.get())
        } else {
            RetryResult::DontRetry(-tries.get())
        }
    });
    assert_eq!(Err(-4), result);
    assert_eq!(4, tries.get());
}

#[test]
fn incremental_pause_from_loaded_value() {
    let b = IncrementalInterval::new(Delay::from_secs(1), Delay::from_secs(2));
    assert_eq!(Some(Delay::from_secs(7)), b.pause_from(Delay::from_secs(7)));
    let top = Delay::new(u64::MAX, 0).unwrap();
    assert_eq!(None, b.pause_from(top));
}
