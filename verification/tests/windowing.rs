//! Window tests on real RFC 3339 text, through the public primitives.

use sprint_metrics::analyzer::datetime_include_sprint;
use sprint_metrics::pull_request::datetime_more_since;
use sprint_metrics::sprint::Sprint;

const NANOS: i64 = 1_000_000_000;
const S1_SINCE: i64 = 1704067200 * NANOS; // 2024-01-01T00:00:00Z
const S1_UNTIL: i64 = 1705190400 * NANOS; // 2024-01-14T00:00:00Z

fn s1() -> Sprint {
    Sprint::new("S1".to_string(), S1_SINCE, S1_UNTIL)
}

#[test]
fn timestamp_on_lower_bound_is_inside() {
    let r = datetime_include_sprint(&Some("2024-01-01T00:00:00Z".to_string()), &s1());
    assert_eq!(r.ok(), Some(true));
}

#[test]
fn timestamp_on_upper_bound_is_inside() {
    let r = datetime_include_sprint(&Some("2024-01-14T00:00:00Z".to_string()), &s1());
    assert_eq!(r.ok(), Some(true));
}

#[test]
fn one_nanosecond_before_lower_bound_is_outside() {
    let r = datetime_include_sprint(&Some("2023-12-31T23:59:59.999999999Z".to_string()), &s1());
    assert_eq!(r.ok(), Some(false));
}

#[test]
fn one_nanosecond_after_upper_bound_is_outside() {
    let r = datetime_include_sprint(&Some("2024-01-14T00:00:00.000000001Z".to_string()), &s1());
    assert_eq!(r.ok(), Some(false));
}

#[test]
fn absent_timestamp_is_never_inside() {
    let r = datetime_include_sprint(&None, &s1());
    assert_eq!(r.ok(), Some(false));
}

#[test]
fn zoned_timestamp_is_compared_as_an_instant() {
    // 03:00 at +03:00 is midnight UTC: exactly the lower bound.
    let r = datetime_include_sprint(&Some("2024-01-01T03:00:00+03:00".to_string()), &s1());
    assert_eq!(r.ok(), Some(true));
}

#[test]
fn malformed_timestamp_is_a_fatal_condition() {
    let bad = "2024-13-77T99:00:00Z".to_string();
    let r = datetime_include_sprint(&Some(bad.clone()), &s1());
    match r {
        Err(e) => assert_eq!(e.timestamp, bad),
        Ok(_) => panic!("malformed text must not pass the window test"),
    }
}

#[test]
fn more_since_keeps_later_instants() {
    let r = datetime_more_since(&Some("2024-01-05T00:00:00Z".to_string()), S1_SINCE);
    assert_eq!(r.ok(), Some(true));
    let r = datetime_more_since(&Some("2023-12-31T23:59:59Z".to_string()), S1_SINCE);
    assert_eq!(r.ok(), Some(false));
    let r = datetime_more_since(&None, S1_SINCE);
    assert_eq!(r.ok(), Some(false));
}

#[test]
fn more_since_hands_back_malformed_text() {
    let r = datetime_more_since(&Some("not a date".to_string()), S1_SINCE);
    assert!(r.is_err());
}
