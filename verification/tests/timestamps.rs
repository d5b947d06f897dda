use librechat_core::models::timestamp::{MAX_TIMESTAMP_SECONDS, MIN_TIMESTAMP_SECONDS};
use librechat_core::models::Timestamp;

#[test]
fn calendar_bounds_are_the_last_accepted_seconds() {
    assert!(Timestamp::from_seconds(MAX_TIMESTAMP_SECONDS).is_some());
    assert!(Timestamp::from_seconds(MAX_TIMESTAMP_SECONDS + 1).is_none());
    assert!(Timestamp::from_seconds(MIN_TIMESTAMP_SECONDS).is_some());
    assert!(Timestamp::from_seconds(MIN_TIMESTAMP_SECONDS - 1).is_none());
    assert!(Timestamp::from_seconds(i64::MAX).is_none());
    assert!(Timestamp::from_seconds(i64::MIN).is_none());
}

#[test]
fn seconds_round_trip() {
    let t = Timestamp::from_seconds(1_704_067_200).unwrap();
    assert_eq!(t.seconds(), 1_704_067_200);
    assert_eq!(Timestamp::from_seconds(0).unwrap().seconds(), 0);
    assert_eq!(Timestamp::from_seconds(-1).unwrap().seconds(), -1);
}

#[test]
fn rfc3339_is_read_in_utc_seconds() {
    let t = Timestamp::parse_rfc3339("2024-01-01T00:00:00Z").unwrap();
    assert_eq!(t.seconds(), 1_704_067_200);
    let shifted = Timestamp::parse_rfc3339("2024-01-01T02:00:00+02:00").unwrap();
    assert_eq!(shifted.seconds(), 1_704_067_200);
    let fraction = Timestamp::parse_rfc3339("2024-01-01T00:00:00.750Z").unwrap();
    assert_eq!(fraction.seconds(), 1_704_067_200);
    assert!(Timestamp::parse_rfc3339("2024-01-01 00:00:00").is_none());
    assert!(Timestamp::parse_rfc3339("yesterday").is_none());
    assert!(Timestamp::parse_rfc3339("").is_none());
}

#[test]
fn adding_seconds_stays_within_the_calendar() {
    let t = Timestamp::from_seconds(100).unwrap();
    assert_eq!(t.checked_add_seconds(300).unwrap().seconds(), 400);
    assert_eq!(t.checked_add_seconds(-300).unwrap().seconds(), -200);
    let last = Timestamp::from_seconds(MAX_TIMESTAMP_SECONDS).unwrap();
    assert!(last.checked_add_seconds(1).is_none());
    assert!(last.checked_add_seconds(i64::MAX).is_none());
    assert!(last.checked_add_seconds(0).is_some());
}

#[test]
fn ordering_follows_seconds() {
    let a = Timestamp::from_seconds(10).unwrap();
    let b = Timestamp::from_seconds(11).unwrap();
    assert!(a.is_at_or_before(&b));
    assert!(a.is_at_or_before(&a));
    assert!(!b.is_at_or_before(&a));
    assert!(b.is_after(&a));
    assert!(!a.is_after(&a));
}
