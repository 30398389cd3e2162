use resilience::delay::Delay;

#[test]
fn delay_construction() {
    let d = Delay::from_millis(1_500);
    assert_eq!(1, d.as_secs());
    assert_eq!(500_000_000, d.subsec_nanos());
    assert_eq!(Some(Delay::from_secs(2)), Delay::new(1, 1_000_000_000));
    assert_eq!(None, Delay::new(u64::MAX, 1_000_000_000));
    assert_eq!(Some(Delay::from_millis(2_250)), Delay::new(2, 250_000_000));
}

#[test]
fn delay_addition_carries() {
    let a = Delay::from_millis(700);
    let b = Delay::from_millis(600);
    assert_eq!(Some(Delay::from_millis(1_300)), a.checked_add(&b));
    let top = Delay::new(u64::MAX, 999_999_999).unwrap();
    assert_eq!(None, top.checked_add(&Delay::new(0, 1).unwrap()));
    assert_eq!(Some(top), top.checked_add(&Delay::zero()));
    assert_eq!(None, Delay::from_secs(u64::MAX).checked_add(&Delay::from_secs(1)));
}

#[test]
fn delay_comparison() {
    assert!(Delay::from_secs(5).is_at_least(&Delay::from_secs(3)));
    assert!(Delay::from_secs(3).is_at_least(&Delay::from_secs(3)));
    assert!(!Delay::from_millis(2_999).is_at_least(&Delay::from_secs(3)));
}
