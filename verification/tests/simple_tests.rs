use resilience::delay::Delay;
use resilience::simple::{
    Backoff, ExponentialBackoff, FullJitterExponentialBackoff, RegularIntervalBackoff, Retry,
    RetryResult, Step,
};

/// Runs `f` under `retry` the way an asynchronous caller does, and collects
/// the pauses its strategy answers.
fn drive<B: Backoff, T, E>(
    retry: &mut Retry<B>,
    mut f: impl FnMut() -> RetryResult<T, E>,
) -> (Result<T, E>, Vec<Option<Delay>>) {
    let mut attempts = retry.attempts();
    let mut pauses = Vec::new();
    loop {
        match attempts.record(f()) {
            Step::Finish(result) => return (result, pauses),
            Step::Again { retry: n } => pauses.push(retry.pause(n)),
        }
    }
}

#[test]
fn retry_retries_defaults_to_1() {
    let mut tries = 0;
    let mut retry: Retry = Retry::new();
    let (result, _): (Result<i32, &str>, _) = drive(&mut retry, || {
        tries += 1;
        RetryResult::Error("oops")
    });
    assert_eq!(Err("oops"), result);
    assert_eq!(1, tries);
}

#[test]
fn simple_exec_succeeds_on_nth_retry() {
    for num_retries in 1..=1000_usize {
        let mut tries = 0;
        let mut retry: Retry = Retry::new();
        retry.retries(num_retries);
        let (result, pauses) = drive(&mut retry, || {
            tries += 1;
            if tries == num_retries {
                RetryResult::Done(1)
            } else {
                RetryResult::Error("oops")
            }
        });
        assert_eq!(Ok(1), result);
        assert_eq!(num_retries, tries);
        assert_eq!(num_retries - 1, pauses.len());
    }
}

#[test]
fn simple_exponential_backoff_pauses() {
    let mut tries = 0;
    let mut retry = Retry::new();
    retry.retries(3).backoff(ExponentialBackoff { start: 1, max: 12 });
    let (result, pauses) = drive(&mut retry, || {
        tries += 1;
        if tries == 3 {
            RetryResult::Done(1)
        } else {
            RetryResult::Error("oops")
        }
    });
    assert_eq!(Ok(1), result);
    assert_eq!(vec![Some(Delay::from_secs(2)), Some(Delay::from_secs(4))], pauses);
}

#[test]
fn simple_full_jitter_backoff_pauses() {
    let mut tries = 0;
    let mut retry = Retry::new();
    retry.retries(3).backoff(FullJitterExponentialBackoff { start: 1, max: 12 });
    let (result, pauses) = drive(&mut retry, || {
        tries += 1;
        if tries == 3 {
            RetryResult::Done(1)
        } else {
            RetryResult::<i32, &str>::Error("oops")
        }
    });
    assert_eq!(Ok(1), result);
    assert!(pauses[0].unwrap().as_secs() <= 2);
    assert!(pauses[1].unwrap().as_secs() <= 4);
}

#[test]
fn simple_regular_interval_backoff_pauses() {
    let mut tries = 0;
    let mut retry = Retry::new();
    retry.retries(3).backoff(RegularIntervalBackoff { wait_for: Delay::from_millis(50) });
    let (result, pauses) = drive(&mut retry, || {
        tries += 1;
        if tries == 3 {
            RetryResult::Done(1)
        } else {
            RetryResult::<i32, &str>::Error("oops")
        }
    });
    assert_eq!(Ok(1), result);
    assert_eq!(vec![Some(Delay::from_millis(50)); 2], pauses);
}

#[test]
fn simple_exponential_attempt_number_wraps() {
    let mut b = ExponentialBackoff { start: 1, max: 1000 };
    assert_eq!(Some(Delay::from_secs(8)), b.wait(3));
    assert_eq!(None, b.wait(32));
    if usize::BITS == 64 {
        // the attempt number is taken modulo 2^32
        assert_eq!(Some(Delay::from_secs(8)), b.wait((1usize << 32) + 3));
    }
}

#[test]
fn simple_backoff_replaces_the_strategy_in_place() {
    let mut retry = Retry::new();
    let first = retry.retries(2).backoff(RegularIntervalBackoff { wait_for: Delay::from_secs(1) }).pause(1);
    assert_eq!(Some(Delay::from_secs(1)), first);
    retry.backoff(RegularIntervalBackoff { wait_for: Delay::from_secs(9) });
    assert_eq!(Some(Delay::from_secs(9)), retry.pause(1));
}

#[test]
fn simple_no_strategy_means_no_pause() {
    let mut retry: Retry = Retry::new();
    assert_eq!(Some(Delay::zero()), retry.pause(3));
}
