use resilience::blocking::{Retry, RetryResult};

#[test]
fn main_retries_defaults_to_1() {
    let mut tries = 0;
    let (result, _): (Result<i32, &str>, _) = Retry::new().exec(|_| {
        tries += 1;
        Err("oops")
    });
    assert_eq!(Err("oops"), result);
    assert_eq!(1, tries);
}

#[test]
fn exec_succeeds_on_first_try() {
    let (result, _): (Result<i32, String>, _) = Retry::new().retries(3).exec(|_| Ok(1));
    assert_eq!(Ok(1), result);
}

#[test]
fn exec_succeeds_on_nth_retry() {
    for num_retries in 1..=1000_usize {
        let mut tries = 0;
        let (result, _) = Retry::new().retries(num_retries).exec(|_| {
            tries += 1;
            if tries == num_retries {
                Ok(1)
            } else {
                Err("oops")
            }
        });
        assert_eq!(Ok(1), result);
        assert_eq!(num_retries, tries);
    }
}

#[test]
fn exec_with_stops_after_last_attempt() {
    let mut tries = 0;
    let (result, _): (Result<(), usize>, _) = Retry::new().retries(4).exec_with(|_| {
        tries += 1;
        RetryResult::Error(tries)
    });
    assert_eq!(Err(4), result);
    assert_eq!(4, tries);
}

#[test]
fn exec_with_returns_value() {
    let mut tries = 0;
    let (result, _): (Result<&str, ()>, _) = Retry::new().retries(9).exec_with(|_| {
        tries += 1;
        if tries < 5 {
            RetryResult::Error(())
        } else {
            RetryResult::Done("ok")
        }
    });
    assert_eq!(Ok("ok"), result);
    assert_eq!(5, tries);
}

#[test]
fn exec_passes_the_attempt_number() {
    let mut seen = Vec::new();
    let (result, _): (Result<(), usize>, _) = Retry::new().retries(3).exec(|attempt| {
        seen.push(attempt);
        Err(attempt)
    });
    assert_eq!(Err(2), result);
    assert_eq!(vec![0, 1, 2], seen);
}
