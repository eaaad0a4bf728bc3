use bide::duration::Duration;

#[test]
fn durations_add_and_subtract() {
    let a = Duration::new(1, 600_000_000);
    let b = Duration::new(2, 500_000_000);
    let s = a.checked_add(&b).unwrap();
    assert_eq!(s, Duration::new(4, 100_000_000));
    assert_eq!(s.as_nanos(), 4_100_000_000);
    assert!(Duration::from_secs(u64::MAX)
        .checked_add(&Duration::new(0, 999_999_999))
        .is_some());
    assert!(Duration::new(u64::MAX, 1)
        .checked_add(&Duration::new(0, 999_999_999))
        .is_none());
    assert_eq!(b.saturating_sub(&a), Duration::new(0, 900_000_000));
    assert_eq!(a.saturating_sub(&b), Duration::zero());
    assert!(a.is_less(&b));
    assert!(!b.is_less(&a));
    assert!(!a.is_less(&a));
}

#[test]
fn durations_split_into_parts() {
    let d = Duration::from_millis(123_456);
    assert_eq!(d.as_secs(), 123);
    assert_eq!(d.subsec_millis(), 456);
    assert_eq!(d.subsec_nanos(), 456_000_000);
    assert_eq!(d.as_millis(), 123_456);
    assert_eq!(Duration::from_nanos(1_500_000_001), Duration::new(1, 500_000_001));
    assert!(Duration::zero().is_zero());
    assert!(!Duration::new(0, 1).is_zero());
}
