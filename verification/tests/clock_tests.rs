use watchdog::clock::Timestamp;

#[test]
fn spans_are_compared_to_the_nanosecond() {
    let start = Timestamp::new(100, 500_000_000);
    assert!(Timestamp::new(160, 500_000_000).at_least_seconds(&start, 60));
    assert!(!Timestamp::new(160, 499_999_999).at_least_seconds(&start, 60));
    assert!(!Timestamp::new(160, 500_000_000).more_than_seconds(&start, 60));
    assert!(Timestamp::new(160, 500_000_001).more_than_seconds(&start, 60));
    assert!(Timestamp::new(700, 500_000_000).at_least_minutes(&start, 10));
    assert!(!Timestamp::new(700, 499_999_999).at_least_minutes(&start, 10));
}

#[test]
fn negative_spans_and_extremes_do_not_overflow() {
    let early = Timestamp::new(i64::MIN, 0);
    let late = Timestamp::new(i64::MAX, 999_999_999);
    assert!(late.at_least_seconds(&early, i64::MAX));
    assert!(!early.at_least_seconds(&late, 0));
    assert!(!early.at_least_seconds(&late, i64::MIN));
    assert!(Timestamp::new(0, 0).at_least_seconds(&late, i64::MIN));
    assert!(late.at_least_minutes(&early, 1));
    assert_eq!(late.whole_seconds_since(&early), i64::MAX);
    assert_eq!(early.whole_seconds_since(&late), i64::MIN);
}

#[test]
fn whole_seconds_round_toward_zero() {
    let start = Timestamp::new(10, 0);
    assert_eq!(Timestamp::new(12, 999_999_999).whole_seconds_since(&start), 2);
    assert_eq!(Timestamp::new(7, 1).whole_seconds_since(&start), -2);
    assert_eq!(Timestamp::new(7, 0).whole_seconds_since(&start), -3);
    assert_eq!(start.whole_seconds_since(&start), 0);
}
