use rusty_poly_streak_rsi::interval::{parse_interval_duration, IntervalError, IntervalSpan, IntervalUnit};

fn millis(s: &str) -> i64 {
    parse_interval_duration(s).unwrap().millis().unwrap()
}

#[test]
fn parses_minutes_hours_and_days() {
    assert_eq!(millis("5m"), chrono::Duration::minutes(5).num_milliseconds());
    assert_eq!(millis("2h"), chrono::Duration::hours(2).num_milliseconds());
    assert_eq!(millis("1d"), chrono::Duration::days(1).num_milliseconds());
}

#[test]
fn rejects_invalid_interval() {
    assert!(parse_interval_duration("").is_err());
    assert!(parse_interval_duration("m").is_err());
    assert!(parse_interval_duration("5x").is_err());
}

#[test]
fn interval_errors_name_their_cause() {
    assert_eq!(parse_interval_duration("m"), Err(IntervalError::TooShort));
    assert_eq!(parse_interval_duration("xm"), Err(IntervalError::InvalidNumber));
    assert_eq!(parse_interval_duration("5x"), Err(IntervalError::UnknownUnit));
    assert_eq!(parse_interval_duration("x5x"), Err(IntervalError::InvalidNumber));
}

#[test]
fn interval_keeps_value_and_unit() {
    assert_eq!(
        parse_interval_duration("15m"),
        Ok(IntervalSpan { value: 15, unit: IntervalUnit::Minutes })
    );
    assert_eq!(
        parse_interval_duration("-3h"),
        Ok(IntervalSpan { value: -3, unit: IntervalUnit::Hours })
    );
}

#[test]
fn interval_too_long_for_milliseconds_has_no_length() {
    let span = parse_interval_duration("9223372036854775807d").unwrap();
    assert_eq!(span.millis(), None);
}
