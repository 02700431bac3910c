use harbor_rs::timestamp::{parse_time, Timestamp};

fn ts(year: u32, month: u8, day: u8, hour: u8, minute: u8, second: u8, nanos: u32) -> Timestamp {
    Timestamp { year, month, day, hour, minute, second, nanos }
}

#[test]
fn test_parse_time() {
    let data = vec![
        ("2021-12-02T04:35:12.923959Z", "2021-12-02 04:35:12"),
        ("2021-12-02T09:34:39.358084913Z", "2021-12-02 09:34:39"),
    ];
    for (s, c) in data {
        let t = parse_time(s).unwrap();
        assert_eq!(t.format_second_precision(), c);
    }
}

#[test]
fn parse_fraction_fills_nanoseconds() {
    assert_eq!(
        parse_time("2021-12-02T04:35:12.923959Z").unwrap(),
        ts(2021, 12, 2, 4, 35, 12, 923_959_000)
    );
    assert_eq!(
        parse_time("2021-12-02T09:34:39.358084913Z").unwrap(),
        ts(2021, 12, 2, 9, 34, 39, 358_084_913)
    );
    assert_eq!(
        parse_time("2021-12-02T04:35:12.9Z").unwrap(),
        ts(2021, 12, 2, 4, 35, 12, 900_000_000)
    );
    // More than nine digits only refine precision the timestamp cannot
    // hold; the tenth digit and beyond are ignored.
    assert_eq!(
        parse_time("2021-12-02T04:35:12.1234567891Z").unwrap(),
        ts(2021, 12, 2, 4, 35, 12, 123_456_789)
    );
}

#[test]
fn parse_is_precision_tolerant() {
    let variants = [
        "2021-12-02T04:35:12Z",
        "2021-12-02T04:35:12.9Z",
        "2021-12-02T04:35:12.923959Z",
        "2021-12-02T04:35:12.923959123Z",
    ];
    for s in variants {
        let t = parse_time(s).unwrap();
        assert_eq!(t.format_second_precision(), "2021-12-02 04:35:12");
    }
}

#[test]
fn parse_normalizes_offsets() {
    assert_eq!(
        parse_time("2021-12-02T00:30:00+01:00").unwrap(),
        ts(2021, 12, 1, 23, 30, 0, 0)
    );
    assert_eq!(
        parse_time("2021-12-01T23:30:00-01:00").unwrap(),
        ts(2021, 12, 2, 0, 30, 0, 0)
    );
    assert_eq!(
        parse_time("2021-12-02T04:35:12+00:00").unwrap(),
        ts(2021, 12, 2, 4, 35, 12, 0)
    );
    // Lower-case markers and a space separator are accepted too.
    assert_eq!(
        parse_time("2021-12-02 04:35:12z").unwrap(),
        ts(2021, 12, 2, 4, 35, 12, 0)
    );
}

#[test]
fn parse_rejects_malformed_stamps() {
    for s in [
        "",
        "2021-12-02",
        "2021-12-02T04:35:12",          // no offset
        "2021-12-02T04:35:12.Z",        // empty fraction
        "2021-13-02T04:35:12Z",         // no 13th month
        "2021-02-30T04:35:12Z",         // February has no 30th
        "2021-12-02T24:00:00Z",         // hour out of range
        "2021-12-02T04:35:12+24:00",    // offset hour out of range
        "2021-12-02X04:35:12Z",         // bad separator
        "not a stamp at all",
    ] {
        assert!(parse_time(s).is_err(), "accepted {:?}", s);
    }
}

#[test]
fn leap_years_are_honored() {
    assert!(parse_time("2024-02-29T00:00:00Z").is_ok());
    assert!(parse_time("2023-02-29T00:00:00Z").is_err());
    assert!(parse_time("2000-02-29T00:00:00Z").is_ok());
    assert!(parse_time("1900-02-29T00:00:00Z").is_err());
}

#[test]
fn parse_format_round_trip_is_stable() {
    for s in [
        "2021-12-02T04:35:12.923959Z",
        "2021-12-02T09:34:39.358084913Z",
        "2024-02-29T23:59:59+11:30",
    ] {
        let first = parse_time(s).unwrap();
        let rendered = first.format_second_precision();
        let second = parse_time(&format!("{}Z", rendered)).unwrap();
        assert_eq!(second.format_second_precision(), rendered);
        let mut truncated = first;
        truncated.nanos = 0;
        assert_eq!(second, truncated);
    }
}

#[test]
fn format_pads_every_field() {
    assert_eq!(
        ts(99, 1, 2, 3, 4, 5, 0).format_second_precision(),
        "0099-01-02 03:04:05"
    );
}

#[test]
fn instants_compare_lexicographically() {
    let a = ts(2021, 12, 2, 4, 35, 12, 0);
    let b = ts(2021, 12, 2, 4, 35, 12, 1);
    let c = ts(2022, 1, 1, 0, 0, 0, 0);
    assert!(a.le(&a)); // the boundary is inclusive
    assert!(a.le(&b));
    assert!(!b.le(&a));
    assert!(b.le(&c));
    assert!(!c.le(&a));
}

#[test]
fn minus_days_crosses_month_and_year_boundaries() {
    assert_eq!(
        ts(2024, 3, 1, 12, 0, 0, 0).minus_days(1),
        Some(ts(2024, 2, 29, 12, 0, 0, 0))
    );
    assert_eq!(
        ts(2023, 3, 1, 12, 0, 0, 0).minus_days(1),
        Some(ts(2023, 2, 28, 12, 0, 0, 0))
    );
    assert_eq!(
        ts(2024, 1, 1, 0, 0, 0, 0).minus_days(1),
        Some(ts(2023, 12, 31, 0, 0, 0, 0))
    );
    assert_eq!(
        ts(2024, 6, 30, 12, 0, 0, 0).minus_days(30),
        Some(ts(2024, 5, 31, 12, 0, 0, 0))
    );
    assert_eq!(ts(2024, 6, 30, 12, 0, 0, 0).minus_days(0), Some(ts(2024, 6, 30, 12, 0, 0, 0)));
    assert_eq!(ts(0, 1, 1, 0, 0, 0, 0).minus_days(1), None);
}
