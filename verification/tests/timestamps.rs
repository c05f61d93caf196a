use status_monitor::timestamp::{Timestamp, MAX_SECONDS, MIN_SECONDS};

#[test]
fn bounds_are_the_years_of_rfc3339() {
    let first = chrono::DateTime::parse_from_rfc3339("0000-01-01T00:00:00Z").unwrap();
    let last = chrono::DateTime::parse_from_rfc3339("9999-12-31T23:59:59Z").unwrap();
    assert_eq!(MIN_SECONDS, first.timestamp());
    assert_eq!(MAX_SECONDS, last.timestamp());
}

#[test]
fn new_accepts_instants_only() {
    assert_eq!(Timestamp::new(0, 0), Some(Timestamp { secs: 0, nanos: 0 }));
    assert!(Timestamp::new(MIN_SECONDS, 0).is_some());
    assert!(Timestamp::new(MIN_SECONDS - 1, 0).is_none());
    assert!(Timestamp::new(MAX_SECONDS, 999_999_999).is_some());
    assert!(Timestamp::new(MAX_SECONDS + 1, 0).is_none());
    assert!(Timestamp::new(0, 2_000_000_000).is_none());
}

#[test]
fn leap_second_needs_the_last_second_of_a_minute() {
    assert!(Timestamp::new(59, 1_000_000_000).is_some());
    assert!(Timestamp::new(59, 1_999_999_999).is_some());
    assert!(Timestamp::new(58, 1_000_000_000).is_none());
    assert!(Timestamp::new(60, 1_000_000_000).is_none());
    assert!(Timestamp::new(-1, 1_000_000_000).is_some());
    assert!(Timestamp::new(-2, 1_000_000_000).is_none());
    assert!(Timestamp::new(MAX_SECONDS, 1_500_000_000).is_some());
    assert!(Timestamp::new(MIN_SECONDS, 1_500_000_000).is_none());
}

#[test]
fn new_agrees_with_chrono() {
    let cases: [(i64, u32); 8] = [
        (0, 0),
        (59, 1_000_000_000),
        (58, 1_000_000_000),
        (-1, 1_999_999_999),
        (-61, 1_000_000_000),
        (1_704_067_200, 999_999_999),
        (MIN_SECONDS, 0),
        (MAX_SECONDS, 1_999_999_999),
    ];
    for (secs, nanos) in cases {
        assert_eq!(
            Timestamp::new(secs, nanos).is_some(),
            chrono::DateTime::from_timestamp(secs, nanos).is_some(),
            "{} {}",
            secs,
            nanos
        );
    }
}

#[test]
fn millis_of_an_instant() {
    assert_eq!(Timestamp::new(1, 444_000_000).unwrap().timestamp_millis(), 1_444);
    assert_eq!(Timestamp::new(-1, 999_999_999).unwrap().timestamp_millis(), -1);
    assert_eq!(Timestamp::new(59, 1_500_000_000).unwrap().timestamp_millis(), 60_500);
    assert_eq!(
        Timestamp::new(MAX_SECONDS, 999_999_999).unwrap().timestamp_millis(),
        253_402_300_799_999
    );
    assert_eq!(Timestamp::new(MIN_SECONDS, 0).unwrap().timestamp_millis(), -62_167_219_200_000);
}

#[test]
fn rfc3339_is_read() {
    let when = Timestamp::new(1_704_067_200, 0);
    assert_eq!(Timestamp::parse_from_rfc3339("2024-01-01T00:00:00Z"), when);
    assert_eq!(Timestamp::parse_from_rfc3339("2024-01-01T00:00:00+00:00"), when);
    assert_eq!(Timestamp::parse_from_rfc3339("2024-01-01T02:30:00+02:30"), when);
    assert_eq!(Timestamp::parse_from_rfc3339("2023-12-31 19:00:00-05:00"), when);
    assert_eq!(
        Timestamp::parse_from_rfc3339("2024-01-01T00:00:00.5Z"),
        Timestamp::new(1_704_067_200, 500_000_000)
    );
    assert_eq!(
        Timestamp::parse_from_rfc3339("2016-12-31T23:59:60Z"),
        Timestamp::new(1_483_228_799, 1_000_000_000)
    );
}

#[test]
fn what_is_no_rfc3339_is_refused() {
    assert_eq!(Timestamp::parse_from_rfc3339(""), None);
    assert_eq!(Timestamp::parse_from_rfc3339("2024-01-01"), None);
    assert_eq!(Timestamp::parse_from_rfc3339("2024-01-01T00:00:00"), None);
    assert_eq!(Timestamp::parse_from_rfc3339("2024-13-01T00:00:00Z"), None);
    assert_eq!(Timestamp::parse_from_rfc3339("2024-01-01T00:00:00Z "), None);
    assert_eq!(Timestamp::parse_from_rfc3339("Timestamp"), None);
}

#[test]
fn instants_outside_the_years_of_rfc3339_are_refused() {
    assert_eq!(Timestamp::parse_from_rfc3339("0000-01-01T00:00:00+00:01"), None);
    assert_eq!(Timestamp::parse_from_rfc3339("9999-12-31T23:59:59-00:01"), None);
    assert_eq!(
        Timestamp::parse_from_rfc3339("0000-01-01T00:00:00-00:01"),
        Timestamp::new(MIN_SECONDS + 60, 0)
    );
}

#[test]
fn from_parsed_checks_the_numbers() {
    assert_eq!(Timestamp::from_parsed(None), None);
    assert_eq!(Timestamp::from_parsed(Some((5, 6))), Some(Timestamp { secs: 5, nanos: 6 }));
    assert_eq!(Timestamp::from_parsed(Some((i64::MIN, 0))), None);
    assert_eq!(Timestamp::from_parsed(Some((5, 1_000_000_000))), None);
}

#[test]
fn rfc3339_is_written() {
    let text = |secs: i64, nanos: u32| Timestamp::new(secs, nanos).unwrap().to_rfc3339();
    assert_eq!(text(1_704_067_200, 0), "2024-01-01T00:00:00+00:00");
    assert_eq!(text(1_704_067_260, 123_000_000), "2024-01-01T00:01:00.123+00:00");
    assert_eq!(text(1_704_067_260, 123_400), "2024-01-01T00:01:00.000123400+00:00");
    assert_eq!(text(1_704_067_260, 123_000), "2024-01-01T00:01:00.000123+00:00");
    assert_eq!(text(MIN_SECONDS, 0), "0000-01-01T00:00:00+00:00");
    assert_eq!(text(MAX_SECONDS, 999_999_999), "9999-12-31T23:59:59.999999999+00:00");
    assert_eq!(text(-1, 1_000_000_000), "1969-12-31T23:59:60+00:00");
}

#[test]
fn written_text_reads_back() {
    let cases: [(i64, u32); 7] = [
        (0, 0),
        (1_704_067_200, 1),
        (1_483_228_799, 1_999_999_999),
        (MIN_SECONDS, 0),
        (MIN_SECONDS + 59, 1_000_000_000),
        (MAX_SECONDS, 999_999_999),
        (MAX_SECONDS, 1_999_999_999),
    ];
    for (secs, nanos) in cases {
        let when = Timestamp::new(secs, nanos).unwrap();
        let text = when.to_rfc3339();
        assert_eq!(Timestamp::parse_from_rfc3339(&text), Some(when), "{}", text);
        assert!(text.chars().all(|c| c.is_ascii_digit() || "-:T.+".contains(c)), "{}", text);
    }
}
