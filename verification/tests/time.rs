use r2fs::utils::{parse_system_time, Timestamp};

#[test]
fn parses_utc_midnight() {
    assert_eq!(
        parse_system_time("2024-01-01T00:00:00Z"),
        Some(Timestamp { secs: 1704067200, nanos: 0 })
    );
}

#[test]
fn parses_the_epoch() {
    assert_eq!(parse_system_time("1970-01-01T00:00:00Z"), Some(Timestamp::epoch()));
    assert_eq!(Timestamp::epoch(), Timestamp { secs: 0, nanos: 0 });
}

#[test]
fn parses_an_offset_into_utc() {
    assert_eq!(
        parse_system_time("2024-01-01T01:00:00+01:00"),
        Some(Timestamp { secs: 1704067200, nanos: 0 })
    );
}

#[test]
fn parses_a_fraction_of_a_second() {
    assert_eq!(
        parse_system_time("2023-05-17T12:34:56.250Z"),
        Some(Timestamp { secs: 1684326896, nanos: 250_000_000 })
    );
}

#[test]
fn parses_an_instant_before_the_epoch() {
    assert_eq!(
        parse_system_time("1969-12-31T23:59:59Z"),
        Some(Timestamp { secs: -1, nanos: 0 })
    );
}

#[test]
fn rejects_text_that_is_no_date() {
    assert_eq!(parse_system_time(""), None);
    assert_eq!(parse_system_time("yesterday"), None);
    assert_eq!(parse_system_time("2024-01-01"), None);
    assert_eq!(parse_system_time("2024-13-01T00:00:00Z"), None);
    assert_eq!(parse_system_time("2024-01-01T00:00:00"), None);
}
