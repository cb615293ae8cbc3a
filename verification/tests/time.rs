use battery_logic::Duration;

#[test]
fn spans_come_from_seconds_and_milliseconds() {
    assert_eq!(Duration::from_secs(2), Duration::from_millis(2000));
    assert_eq!(Duration::from_millis(1999).as_secs(), 1);
    assert_eq!(Duration::zero().as_secs(), 0);
    assert_eq!(Duration::from_secs(u64::MAX).as_secs(), u64::MAX);
}

#[test]
fn sums_and_differences_saturate() {
    let one = Duration::from_secs(1);
    assert_eq!(Duration::max().saturating_add(one), Duration::max());
    assert_eq!(one.saturating_sub(Duration::from_secs(2)), Duration::zero());
    assert_eq!(one.saturating_add(one), Duration::from_secs(2));
    assert_eq!(Duration::from_secs(3).saturating_sub(one), Duration::from_secs(2));
    assert!(Duration::from_secs(3).at_least(Duration::from_millis(3000)));
    assert!(!Duration::from_millis(2999).at_least(Duration::from_secs(3)));
}
