use rusty_poly_streak_rsi::logger::{TradeLogger, TradeRecord};
use rusty_poly_streak_rsi::strategy::Prediction;
use rusty_poly_streak_rsi::tracker::{
    binance_outcome, build_signal_key, is_filled_status, is_non_fill_terminal_status,
    is_terminal_status, PendingTrade, PositionTracker, TrackOutcome,
};

const HEADER: &str = "trade_id,signal_key,symbol,interval,signal_close_time_utc,target_candle_open_time_utc,prediction,entry_side,entry_order_type,order_status,signal_to_submit_start_ms,submit_start_to_ack_ms,signal_to_ack_ms,trade_open_to_order_ack_ms,outcome\n";

fn journal_with(trades: &[&str]) -> TradeLogger {
    let mut text = HEADER.to_string();
    for t in trades {
        text.push_str(&format!(
            "{t},k-{t},btcusdt,5m,a,b,UP,BUY,MARKET,LIVE,1,2,3,4,PENDING\n"
        ));
    }
    TradeLogger::new(Some(text)).unwrap()
}

fn outcome_of(journal: &TradeLogger, trade_id: &str) -> String {
    let mut rdr = csv::ReaderBuilder::new()
        .has_headers(true)
        .from_reader(journal.text().as_bytes());
    for rec in rdr.records() {
        let rec = rec.unwrap();
        if &rec[0] == trade_id {
            return format!("{}|{}", &rec[9], &rec[14]);
        }
    }
    panic!("trade {trade_id} not in journal");
}

#[test]
fn terminal_status_matching_is_case_insensitive() {
    for status in ["MATCHED", "Matched", "filled", "Cancelled", "EXPIRED"] {
        assert!(is_terminal_status(status));
    }
}

#[test]
fn open_status_is_not_terminal() {
    assert!(!is_terminal_status("OPEN"));
}

#[test]
fn status_classes() {
    assert!(is_filled_status("matched"));
    assert!(!is_filled_status("cancelled"));
    assert!(is_non_fill_terminal_status("Unmatched"));
    assert!(is_terminal_status("status_unknown"));
    assert!(!is_terminal_status("LIVE"));
}

#[test]
fn test_build_signal_key_is_normalized() {
    let key = build_signal_key("  My_Strategy ", " BTC-UPDOWN-5M-1710000000 ", &Prediction::Down);
    assert_eq!(key, "my_strategy:btc-updown-5m-1710000000:DOWN");
}

#[test]
fn binance_outcome_follows_candle_colour() {
    assert_eq!(binance_outcome(&Prediction::Up, true), "WIN");
    assert_eq!(binance_outcome(&Prediction::Up, false), "LOSS");
    assert_eq!(binance_outcome(&Prediction::Down, false), "WIN");
    assert_eq!(binance_outcome(&Prediction::Down, true), "LOSS");
}

#[test]
fn tracker_ignores_dry_run_and_duplicates() {
    let mut book = PositionTracker::new(Vec::new());
    let r = book.track("t1".into(), "dry-run-1".into(), "k1".into(), Prediction::Up, 10, "LIVE".into());
    assert_eq!(r, TrackOutcome::IgnoredDryRun);
    let r = book.track("t1".into(), "o1".into(), "k1".into(), Prediction::Up, 10, "LIVE".into());
    assert_eq!(r, TrackOutcome::Followed);
    let r = book.track("t2".into(), "o2".into(), "k1".into(), Prediction::Up, 10, "LIVE".into());
    assert_eq!(r, TrackOutcome::AlreadyTracked);
    let r = book.track("t3".into(), "o1".into(), "k3".into(), Prediction::Up, 10, "LIVE".into());
    assert_eq!(r, TrackOutcome::AlreadyTracked);
    assert_eq!(book.pending_count(), 1);
    assert!(book.is_signal_active("k1"));
    assert!(!book.is_signal_active("k3"));
}

#[test]
fn tracker_validates_win_with_green_candle_for_up() {
    let mut journal = journal_with(&["t1"]);
    let mut book = PositionTracker::new(Vec::new());
    book.track("t1".into(), "o1".into(), "k-t1".into(), Prediction::Up, 1000, "MATCHED".into());

    let early = book.validate_with_closed_candle(&mut journal, 999, true);
    assert!(early.is_empty());
    assert_eq!(book.pending_count(), 1);

    let outcomes = book.validate_with_closed_candle(&mut journal, 1000, true);
    assert_eq!(outcomes, vec!["WIN".to_string()]);
    assert_eq!(outcome_of(&journal, "t1"), "LIVE|WIN");
    // validated and filled: nothing more happens to it
    assert_eq!(book.pending_count(), 0);
}

#[test]
fn late_validation_is_marked_missed() {
    let mut journal = journal_with(&["t1"]);
    let mut book = PositionTracker::new(Vec::new());
    book.track("t1".into(), "o1".into(), "k-t1".into(), Prediction::Down, 1000, "filled".into());
    let outcomes = book.validate_with_closed_candle(&mut journal, 2000, false);
    assert_eq!(outcomes, vec!["MISSED_VALIDATION".to_string()]);
    assert_eq!(outcome_of(&journal, "t1"), "LIVE|MISSED_VALIDATION");
}

#[test]
fn validation_write_failure_keeps_trade_pending() {
    // the journal has no `outcome` column: the write of the outcome fails
    let mut journal = TradeLogger::new(Some("trade_id,signal_key\nt9,k9\n".to_string())).unwrap();
    let mut book = PositionTracker::new(Vec::new());
    book.track("t9".into(), "o9".into(), "k9".into(), Prediction::Up, 5, "MATCHED".into());
    let outcomes = book.validate_with_closed_candle(&mut journal, 5, true);
    assert!(outcomes.is_empty());
    assert_eq!(book.pending_count(), 1);
    assert!(!book.trades()[0].validation_done);
}

#[test]
fn poll_of_cancelled_order_writes_status_and_no_entry() {
    let mut journal = journal_with(&["t1"]);
    let mut book = PositionTracker::new(Vec::new());
    book.track("t1".into(), "o1".into(), "k-t1".into(), Prediction::Up, 1000, "LIVE".into());
    book.poll_step(&mut journal, 0, Some("CANCELLED".to_string()));
    assert_eq!(outcome_of(&journal, "t1"), "CANCELLED|NO_ENTRY");
    assert!(book.trades()[0].validation_done);
    assert_eq!(book.drop_settled(), 1);
    assert_eq!(book.pending_count(), 0);
}

#[test]
fn poll_failures_give_up_after_the_limit() {
    let mut journal = journal_with(&["t1"]);
    let mut book = PositionTracker::new(Vec::new());
    book.track("t1".into(), "o1".into(), "k-t1".into(), Prediction::Up, 1000, "LIVE".into());
    for _ in 0..4 {
        book.poll_step(&mut journal, 0, None);
    }
    assert_eq!(book.trades()[0].status_failures, 4);
    assert_eq!(outcome_of(&journal, "t1"), "LIVE|PENDING");
    book.poll_step(&mut journal, 0, None);
    assert_eq!(outcome_of(&journal, "t1"), "STATUS_UNKNOWN|STATUS_UNKNOWN");
    assert_eq!(
        book.trades()[0].order_status.as_deref(),
        Some("STATUS_UNKNOWN")
    );
    book.poll_step(&mut journal, 0, Some("live".to_string()));
    assert_eq!(book.trades()[0].status_failures, 0);
}

#[test]
fn reloaded_trades_are_kept_in_order() {
    let t = PendingTrade {
        trade_id: "a".into(),
        order_id: "o".into(),
        signal_key: "k".into(),
        prediction: None,
        target_close_time_ms: None,
        order_status: None,
        status_failures: 0,
        validation_done: false,
    };
    let book = PositionTracker::new(vec![t]);
    assert_eq!(book.pending_count(), 1);
    assert_eq!(book.trades()[0].trade_id, "a");
}

#[test]
fn test_tracker_ignores_duplicate_signal_key() {
    let mut tracker = PositionTracker::new(Vec::new());
    tracker.track(
        "trade-1".to_string(),
        "order-1".to_string(),
        "signal-1".to_string(),
        Prediction::Up,
        1_716_112_800_000,
        "MATCHED".to_string(),
    );
    tracker.track(
        "trade-2".to_string(),
        "order-2".to_string(),
        "signal-1".to_string(),
        Prediction::Down,
        1_716_112_800_000,
        "MATCHED".to_string(),
    );
    assert_eq!(tracker.pending_count(), 1);
}

#[test]
fn test_tracker_validates_win_with_green_candle_for_up() {
    let mut logger = TradeLogger::new(None).unwrap();
    let mut tracker = PositionTracker::new(Vec::new());
    let target_close_time: i64 = 1_716_112_800_000;
    logger
        .log_trade(&TradeRecord {
            trade_id: "trade-1".to_string(),
            signal_key: "signal-1".to_string(),
            symbol: "BTCUSDT".to_string(),
            interval: "5m".to_string(),
            signal_close_time_utc: "2024-01-01T00:00:00+00:00".to_string(),
            target_candle_open_time_utc: "2024-01-01T00:05:00+00:00".to_string(),
            prediction: "UP".to_string(),
            entry_side: "BUY".to_string(),
            entry_order_type: "DRY_RUN".to_string(),
            order_status: "MATCHED".to_string(),
            signal_to_submit_start_ms: 10,
            submit_start_to_ack_ms: 5,
            signal_to_ack_ms: 15,
            trade_open_to_order_ack_ms: 20,
            outcome: "PENDING".to_string(),
        })
        .unwrap();
    tracker.track(
        "trade-1".to_string(),
        "order-1".to_string(),
        "signal-1".to_string(),
        Prediction::Up,
        target_close_time,
        "MATCHED".to_string(),
    );

    // a candle that opens at 100 and closes at 110 is green
    tracker.validate_with_closed_candle(&mut logger, target_close_time, true);

    assert!(logger.text().contains("WIN"));
    assert_eq!(tracker.pending_count(), 0);
}

#[test]
fn poll_of_filled_order_writes_its_outcome() {
    let mut journal = journal_with(&["t1", "t2"]);
    let mut book = PositionTracker::new(Vec::new());
    book.track("t1".into(), "o1".into(), "k-t1".into(), Prediction::Up, 1000, "MATCHED".into());
    book.track("t2".into(), "o2".into(), "k-t2".into(), Prediction::Down, 1000, "LIVE".into());

    // the status did not change: only the outcome is written
    book.poll_step(&mut journal, 0, Some("matched".to_string()));
    assert_eq!(outcome_of(&journal, "t1"), "LIVE|MATCHED");
    // a new filled status is written as status and outcome
    book.poll_step(&mut journal, 1, Some("filled".to_string()));
    assert_eq!(outcome_of(&journal, "t2"), "filled|FILLED");
    // both still wait for their candle
    assert!(!book.trades()[0].validation_done);
    assert_eq!(book.drop_settled(), 0);

    let outcomes = book.validate_with_closed_candle(&mut journal, 1000, true);
    assert_eq!(outcomes, vec!["WIN".to_string(), "LOSS".to_string()]);
    assert_eq!(outcome_of(&journal, "t1"), "LIVE|WIN");
    assert_eq!(outcome_of(&journal, "t2"), "filled|LOSS");
    assert_eq!(book.pending_count(), 0);
}
