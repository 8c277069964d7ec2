use app_queue::time::{Timestamp, MAX_SECS, MIN_SECS};

fn at(secs: i64, nanos: u32) -> Timestamp {
    Timestamp { secs, nanos }
}

#[test]
fn seconds_order_before_nanoseconds() {
    assert!(at(1, 999_999_999).is_before(&at(2, 0)));
    assert!(!at(2, 0).is_before(&at(1, 999_999_999)));
    assert!(at(-5, 0).is_before(&at(0, 0)));
}

#[test]
fn nanoseconds_order_within_a_second() {
    assert!(at(1, 5).is_before(&at(1, 6)));
    assert!(!at(1, 5).is_before(&at(1, 5)));
    assert!(at(1, 5).is_at_or_before(&at(1, 5)));
    assert!(at(1, 5).is_at_or_before(&at(1, 6)));
    assert!(!at(1, 6).is_at_or_before(&at(1, 5)));
}

#[test]
fn a_leap_second_lies_between_its_neighbours() {
    let last = at(59, 999_999_999);
    let leap = at(59, 1_500_000_000);
    let next = at(60, 0);
    assert!(last.is_before(&leap));
    assert!(leap.is_before(&next));
}

#[test]
fn the_calendar_has_the_bounds_of_chrono() {
    assert_eq!(chrono::DateTime::<chrono::Utc>::MAX_UTC.timestamp(), MAX_SECS);
    assert_eq!(chrono::DateTime::<chrono::Utc>::MIN_UTC.timestamp(), MIN_SECS);
}

#[test]
fn the_order_is_that_of_chrono() {
    let points = [
        at(MIN_SECS, 0),
        at(-1, 999_999_999),
        at(0, 0),
        at(59, 999_999_999),
        at(59, 1_000_000_000),
        at(60, 0),
        at(MAX_SECS, 999_999_999),
    ];
    for a in points {
        for b in points {
            let left = chrono::DateTime::from_timestamp(a.secs, a.nanos).unwrap();
            let right = chrono::DateTime::from_timestamp(b.secs, b.nanos).unwrap();
            assert_eq!(a.is_before(&b), left < right);
            assert_eq!(a.is_at_or_before(&b), left <= right);
        }
    }
}
