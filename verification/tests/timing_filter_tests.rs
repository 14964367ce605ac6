use chrono::{Datelike, Duration, TimeZone, Timelike, Utc};
use rusty_poly_streak_rsi::trade_timing::TradeLatencies;
use rusty_poly_streak_rsi::trading_filter::{
    trading_filter_reason, weekday_and_hour, weekday_key, TradingFilterReason,
};

fn ms(t: chrono::DateTime<Utc>) -> i64 {
    t.timestamp_millis()
}

#[test]
fn computes_positive_latencies() {
    let signal = Utc.with_ymd_and_hms(2026, 5, 19, 10, 0, 0).unwrap();
    let submit = signal + Duration::milliseconds(25);
    let ack = submit + Duration::milliseconds(75);
    let candle_close = signal - Duration::milliseconds(500);

    let latencies = TradeLatencies::from_times(ms(signal), ms(submit), ms(ack), ms(candle_close));

    assert_eq!(latencies.signal_to_submit_start_ms, 25);
    assert_eq!(latencies.submit_start_to_ack_ms, 75);
    assert_eq!(latencies.signal_to_ack_ms, 100);
    assert_eq!(latencies.trade_open_to_order_ack_ms, 600);
}

#[test]
fn clamps_negative_latencies_to_zero() {
    let signal = Utc.with_ymd_and_hms(2026, 5, 19, 10, 0, 0).unwrap();
    let submit = signal - Duration::milliseconds(25);
    let ack = signal - Duration::milliseconds(50);
    let candle_close = signal + Duration::milliseconds(500);

    let latencies = TradeLatencies::from_times(ms(signal), ms(submit), ms(ack), ms(candle_close));

    assert_eq!(latencies.signal_to_submit_start_ms, 0);
    assert_eq!(latencies.submit_start_to_ack_ms, 0);
    assert_eq!(latencies.signal_to_ack_ms, 0);
    assert_eq!(latencies.trade_open_to_order_ack_ms, 0);
}

#[test]
fn returns_none_when_no_filters_match() {
    let close_time = Utc.with_ymd_and_hms(2026, 5, 19, 15, 0, 0).unwrap();
    assert_eq!(
        trading_filter_reason(ms(close_time), &vec!["sun".to_string()], &vec![(0, 9)]),
        None
    );
}

#[test]
fn returns_excluded_day_when_weekday_matches() {
    let close_time = Utc.with_ymd_and_hms(2026, 5, 19, 15, 0, 0).unwrap();
    assert_eq!(
        trading_filter_reason(ms(close_time), &vec!["tue".to_string()], &vec![]),
        Some(TradingFilterReason::ExcludedDay("tue".to_string()))
    );
}

#[test]
fn returns_excluded_hour_when_hour_is_inside_range() {
    let close_time = Utc.with_ymd_and_hms(2026, 5, 19, 8, 30, 0).unwrap();
    assert_eq!(
        trading_filter_reason(ms(close_time), &vec![], &vec![(0, 9)]),
        Some(TradingFilterReason::ExcludedHour(8))
    );
}

#[test]
fn hour_range_end_is_exclusive() {
    let close_time = Utc.with_ymd_and_hms(2026, 5, 19, 9, 0, 0).unwrap();
    assert_eq!(trading_filter_reason(ms(close_time), &vec![], &vec![(0, 9)]), None);
}

#[test]
fn excluded_day_is_reported_before_excluded_hour() {
    let close_time = Utc.with_ymd_and_hms(2026, 5, 23, 3, 0, 0).unwrap();
    assert_eq!(
        trading_filter_reason(ms(close_time), &vec!["sat".to_string()], &vec![(0, 9)]),
        Some(TradingFilterReason::ExcludedDay("sat".to_string()))
    );
}

#[test]
fn weekday_and_hour_agree_with_chrono() {
    for t in [
        Utc.with_ymd_and_hms(1970, 1, 1, 0, 0, 0).unwrap(),
        Utc.with_ymd_and_hms(1969, 12, 31, 23, 59, 59).unwrap(),
        Utc.with_ymd_and_hms(2026, 5, 24, 23, 0, 0).unwrap(),
        Utc.with_ymd_and_hms(1900, 3, 5, 7, 0, 0).unwrap(),
    ] {
        let (day, hour) = weekday_and_hour(ms(t));
        assert_eq!(day, t.weekday().num_days_from_monday());
        assert_eq!(hour, t.hour());
        let key = t.weekday().to_string().to_lowercase();
        assert_eq!(weekday_key(day), key);
    }
}
