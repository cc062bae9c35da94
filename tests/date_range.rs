#![allow(deprecated)]

use chrono::{Local, TimeZone, Utc};
use tempus_cli::range::{
    get_date_from_arg, parse_date_range, parse_range_spec, resolve_range, Bound, DateRange,
    RangeError, RangeSpec,
};
use tempus_cli::time::{CalDate, Timestamp};

fn day(year: i32, month: u32, day: u32) -> CalDate {
    CalDate { year, month, day }
}

#[test]
fn test_date_range() {
    let DateRange(start, end) = parse_date_range("2021-12-01..2021-12-13").unwrap();

    assert_eq!(
        Local.ymd(2021, 12, 1).and_hms(0, 0, 0).timestamp(),
        start.timestamp()
    );

    assert_eq!(
        Local.ymd(2021, 12, 13).and_hms(0, 0, 0).timestamp(),
        end.timestamp()
    );
}

#[test]
fn test_date_range_end_only() {
    let DateRange(start, end) = parse_date_range("2021-12-01").unwrap();

    assert_eq!(
        Utc.ymd(1970, 1, 1).and_hms(0, 0, 0).timestamp(),
        start.timestamp()
    );

    assert_eq!(
        Local.ymd(2021, 12, 1).and_hms(0, 0, 0).timestamp(),
        end.timestamp()
    );
}

#[test]
fn test_date_range_start_only() {
    let DateRange(start, end) = parse_date_range("2021-12-01..").unwrap();

    assert_eq!(
        Local.ymd(2021, 12, 1).and_hms(0, 0, 0).timestamp(),
        start.timestamp()
    );

    let now = Local::now().timestamp();
    assert!(end.timestamp() <= now && now - end.timestamp() <= 1);
}

#[test]
fn leading_dots_match_single_date() {
    let a = parse_date_range("..2021-12-01").unwrap();
    let b = parse_date_range("2021-12-01").unwrap();
    assert_eq!(a, b);
    assert_eq!(a.0.timestamp(), 0);
}

#[test]
fn bare_dots_are_rejected() {
    assert!(matches!(parse_date_range(".."), Err(RangeError::InvalidDateRange)));
    assert!(matches!(
        parse_range_spec("..", day(2024, 5, 6)),
        Err(RangeError::InvalidDateRange)
    ));
}

#[test]
fn two_separators_are_rejected() {
    assert!(matches!(
        parse_date_range("2021-01-01..2021-02-01..2021-03-01"),
        Err(RangeError::InvalidDateRange)
    ));
    assert!(matches!(
        parse_range_spec("....", day(2024, 5, 6)),
        Err(RangeError::InvalidDateRange)
    ));
}

#[test]
fn bad_token_is_named() {
    match parse_range_spec("2021-12-01..12/13", day(2024, 5, 6)) {
        Err(RangeError::InvalidDate(t)) => assert_eq!(t, "12/13"),
        other => panic!("unexpected {:?}", other),
    }
    match parse_date_range("yesterday") {
        Err(RangeError::InvalidDate(t)) => assert_eq!(t, "yesterday"),
        other => panic!("unexpected {:?}", other),
    }
}

#[test]
fn impossible_day_has_no_midnight() {
    match parse_date_range("2021-02-30") {
        Err(RangeError::NoSuchDay(d)) => assert_eq!(d, day(2021, 2, 30)),
        other => panic!("unexpected {:?}", other),
    }
}

#[test]
fn spec_forms_with_fixed_today() {
    let today = day(2024, 5, 6);
    assert_eq!(
        parse_range_spec("2021-12-01..2021-12-13", today).unwrap(),
        RangeSpec { from: Bound::Day(day(2021, 12, 1)), to: Bound::Day(day(2021, 12, 13)) }
    );
    assert_eq!(
        parse_range_spec("12-25", today).unwrap(),
        RangeSpec { from: Bound::Beginning, to: Bound::Day(day(2024, 12, 25)) }
    );
    assert_eq!(
        parse_range_spec("today..", today).unwrap(),
        RangeSpec { from: Bound::Day(today), to: Bound::Now }
    );
    assert_eq!(
        parse_range_spec("2021-12-13..2021-12-01", today).unwrap(),
        RangeSpec { from: Bound::Day(day(2021, 12, 13)), to: Bound::Day(day(2021, 12, 1)) }
    );
}

#[test]
fn resolve_uses_given_instants() {
    let now = Timestamp { secs: 5_000, offset: 0 };
    let mid = Timestamp { secs: 1_000, offset: 3_600 };
    let open = RangeSpec { from: Bound::Day(day(2021, 1, 1)), to: Bound::Now };
    assert_eq!(resolve_range(&open, now, Some(mid), None).unwrap(), DateRange(mid, now));
    let single = RangeSpec { from: Bound::Beginning, to: Bound::Day(day(2021, 1, 1)) };
    assert_eq!(
        resolve_range(&single, now, None, Some(mid)).unwrap(),
        DateRange(Timestamp { secs: 0, offset: 0 }, mid)
    );
    assert!(matches!(
        resolve_range(&open, now, None, None),
        Err(RangeError::NoSuchDay(d)) if d == day(2021, 1, 1)
    ));
}

#[test]
fn date_argument_is_local_midnight() {
    let t = get_date_from_arg("2021-12-01", day(2024, 5, 6)).unwrap();
    assert_eq!(t.timestamp(), Local.ymd(2021, 12, 1).and_hms(0, 0, 0).timestamp());
    assert!(matches!(
        get_date_from_arg("2021-1-01", day(2024, 5, 6)),
        Err(RangeError::InvalidDate(_))
    ));
}
