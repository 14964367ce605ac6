use chrono::{TimeZone, Utc};
use rusty_poly_streak_rsi::logger::TradeLogger;
use rusty_poly_streak_rsi::strategy::Prediction;
use rusty_poly_streak_rsi::tracker::PositionTracker;
use rusty_poly_streak_rsi::trading_filter::TradingFilterReason;
use rusty_poly_streak_rsi::trading_runtime::{
    followups, next_open_ms, screen_closed_candle, target_close_ms, ClosedCandleAction, Screening,
};

fn close_ms() -> i64 {
    // a Tuesday, 15:04:59.999 UTC
    Utc.with_ymd_and_hms(2026, 5, 19, 15, 4, 59).unwrap().timestamp_millis() + 999
}

#[test]
fn no_signal_ends_the_candle() {
    let book = PositionTracker::new(Vec::new());
    let journal = TradeLogger::new(None).unwrap();
    let s = screen_closed_candle(close_ms(), "btc-updown-5m", None, &vec![], &vec![], &book, &journal);
    assert!(matches!(s, Screening::NoSignal));
    assert_eq!(s.finished_action(), Some(ClosedCandleAction::NoSignal));
}

#[test]
fn filtered_signal_reports_its_reason() {
    let book = PositionTracker::new(Vec::new());
    let journal = TradeLogger::new(None).unwrap();
    let s = screen_closed_candle(
        close_ms(),
        "btc-updown-5m",
        Some(("strat", Prediction::Up)),
        &vec!["tue".to_string()],
        &vec![],
        &book,
        &journal,
    );
    assert!(matches!(&s, Screening::Filtered(TradingFilterReason::ExcludedDay(d)) if d == "tue"));
    assert_eq!(s.finished_action(), Some(ClosedCandleAction::Filtered));
}

#[test]
fn fresh_signal_proceeds_on_the_next_market() {
    let book = PositionTracker::new(Vec::new());
    let journal = TradeLogger::new(None).unwrap();
    let s = screen_closed_candle(
        close_ms(),
        "btc-updown-5m",
        Some(("Strat", Prediction::Down)),
        &vec![],
        &vec![],
        &book,
        &journal,
    );
    let next_open = (close_ms() + 1) / 1000;
    match s {
        Screening::Proceed { slug, signal_key } => {
            assert_eq!(slug, format!("btc-updown-5m-{next_open}"));
            assert_eq!(signal_key, format!("strat:btc-updown-5m-{next_open}:DOWN"));
        }
        other => panic!("unexpected {other:?}"),
    }
}

#[test]
fn followed_or_journaled_signal_is_a_duplicate() {
    let next_open = (close_ms() + 1) / 1000;
    let key = format!("strat:btc-updown-5m-{next_open}:UP");
    let mut book = PositionTracker::new(Vec::new());
    book.track("t".into(), "o".into(), key.clone(), Prediction::Up, 0, "LIVE".into());
    let journal = TradeLogger::new(None).unwrap();
    let s = screen_closed_candle(
        close_ms(),
        "btc-updown-5m",
        Some(("strat", Prediction::Up)),
        &vec![],
        &vec![],
        &book,
        &journal,
    );
    assert!(matches!(s, Screening::ActiveSignal));

    let empty = PositionTracker::new(Vec::new());
    let text = format!(
        "trade_id,signal_key,outcome\nt,{key},PENDING\n"
    );
    let journal = TradeLogger::new(Some(text)).unwrap();
    let s = screen_closed_candle(
        close_ms(),
        "btc-updown-5m",
        Some(("strat", Prediction::Up)),
        &vec![],
        &vec![],
        &empty,
        &journal,
    );
    assert!(matches!(s, Screening::JournaledSignal));
    assert_eq!(s.finished_action(), Some(ClosedCandleAction::DuplicateSignal));
}

#[test]
fn followups_of_each_ending() {
    assert_eq!(followups(&ClosedCandleAction::NoSignal), (true, true));
    assert_eq!(followups(&ClosedCandleAction::Filtered), (true, true));
    assert_eq!(followups(&ClosedCandleAction::DuplicateSignal), (true, false));
    assert_eq!(followups(&ClosedCandleAction::MarketResolveFailed), (true, false));
    assert_eq!(followups(&ClosedCandleAction::OrderFailed), (false, false));
    assert_eq!(
        followups(&ClosedCandleAction::OrderPlaced {
            trade_id: "t".into(),
            signal_key: "k".into()
        }),
        (true, true)
    );
}

#[test]
fn instants_derived_from_the_candle() {
    assert_eq!(next_open_ms(1_000), 1_001);
    assert_eq!(target_close_ms(1_000, 300_000), Some(301_000));
    assert_eq!(target_close_ms(i64::MAX, 1), None);
}
