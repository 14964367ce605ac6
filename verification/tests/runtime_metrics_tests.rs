use rusty_poly_streak_rsi::runtime_metrics::RuntimeMetrics;
use rusty_poly_streak_rsi::trading_runtime::ClosedCandleAction;

#[test]
fn records_actions() {
    let mut metrics = RuntimeMetrics::default();
    metrics.record(&ClosedCandleAction::NoSignal);
    metrics.record(&ClosedCandleAction::OrderPlaced {
        trade_id: "t".to_string(),
        signal_key: "s".to_string(),
    });

    let snapshot = metrics.snapshot();
    assert_eq!(snapshot.no_signal, 1);
    assert_eq!(snapshot.order_placed, 1);
}

#[test]
fn each_action_counts_once_in_its_own_counter() {
    let mut metrics = RuntimeMetrics::default();
    metrics.record(&ClosedCandleAction::Filtered);
    metrics.record(&ClosedCandleAction::Filtered);
    metrics.record(&ClosedCandleAction::DuplicateSignal);
    metrics.record(&ClosedCandleAction::MarketResolveFailed);
    metrics.record(&ClosedCandleAction::OrderFailed);

    let snapshot = metrics.snapshot();
    assert_eq!(snapshot.no_signal, 0);
    assert_eq!(snapshot.filtered, 2);
    assert_eq!(snapshot.duplicate_signal, 1);
    assert_eq!(snapshot.market_resolve_failed, 1);
    assert_eq!(snapshot.order_failed, 1);
    assert_eq!(snapshot.order_placed, 0);
}

#[test]
fn fresh_metrics_are_all_zero() {
    let snapshot = RuntimeMetrics::default().snapshot();
    assert_eq!(snapshot.no_signal, 0);
    assert_eq!(snapshot.filtered, 0);
    assert_eq!(snapshot.duplicate_signal, 0);
    assert_eq!(snapshot.market_resolve_failed, 0);
    assert_eq!(snapshot.order_failed, 0);
    assert_eq!(snapshot.order_placed, 0);
}

#[test]
fn concluding_a_candle_counts_it_once() {
    let mut metrics = RuntimeMetrics::default();
    let followups = rusty_poly_streak_rsi::trading_runtime::conclude_closed_candle(
        &mut metrics,
        &ClosedCandleAction::OrderFailed,
    );
    assert_eq!(followups, (false, false));
    let s = metrics.snapshot();
    assert_eq!(s.order_failed, 1);
    assert_eq!(
        s.no_signal + s.filtered + s.duplicate_signal + s.market_resolve_failed + s.order_placed,
        0
    );
    let followups = rusty_poly_streak_rsi::trading_runtime::conclude_closed_candle(
        &mut metrics,
        &ClosedCandleAction::NoSignal,
    );
    assert_eq!(followups, (true, true));
    assert_eq!(metrics.snapshot().no_signal, 1);
}
