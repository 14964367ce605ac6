use rusty_poly_streak_rsi::strategy::Prediction;
use rusty_poly_streak_rsi::tools::{
    count_with_status, extract_updown_slug, interval_ms, is_open_status, next_candle_open_ms,
    official_outcome, official_winner, parse_live_test_side, read_trades, reconciliation_row,
    reconciliation_status, report_header, smoke_verdict, ReconcileError, SmokeVerdict,
    WinnerLookup,
};

#[test]
fn updown_slug_is_taken_from_the_signal_key() {
    assert_eq!(
        extract_updown_slug("strat: BTC-UPDOWN-5M-1710000000 :UP"),
        Some("btc-updown-5m-1710000000".to_string())
    );
    assert_eq!(extract_updown_slug("strat:sol-updown-5m-1:UP"), None);
    assert_eq!(extract_updown_slug("nokey"), None);
}

#[test]
fn intervals_in_minutes() {
    assert_eq!(interval_ms("5m"), Some(300_000));
    assert_eq!(interval_ms("15m"), Some(900_000));
    assert_eq!(interval_ms("1h"), None);
    assert_eq!(next_candle_open_ms(1_000_000, 300_000), Some(1_200_000));
    assert_eq!(next_candle_open_ms(1_200_000, 300_000), Some(1_500_000));
}

#[test]
fn open_statuses() {
    for s in ["live", "OPEN", "Active", "unmatched"] {
        assert!(is_open_status(s));
    }
    assert!(!is_open_status("MATCHED"));
}

#[test]
fn journal_trades_are_read_for_reconciliation() {
    let text = "trade_id,signal_key,prediction,outcome\n t1 ,k1,up,win\nt2,k2\n";
    let trades = read_trades(text).unwrap();
    assert_eq!(trades.len(), 2);
    assert_eq!(trades[0].trade_id, "t1");
    assert_eq!(trades[0].prediction, "UP");
    assert_eq!(trades[0].outcome, "WIN");
    assert_eq!(trades[1].prediction, "");
    assert_eq!(
        read_trades("trade_id,signal_key,outcome\n").err(),
        Some(ReconcileError::MissingColumn("prediction".to_string()))
    );
}

#[test]
fn reconciliation_rows_compare_outcomes() {
    let trades = read_trades("trade_id,signal_key,prediction,outcome\nt1,k1,UP,LOSS\n").unwrap();
    let t = &trades[0];
    let row = reconciliation_row("now", t, "slug", &WinnerLookup::Winner("UP".to_string()));
    assert_eq!(row.len(), report_header().len());
    assert_eq!(row[6], "UP");
    assert_eq!(row[7], "WIN");
    assert_eq!(row[8], "MISMATCH");
    let pending = reconciliation_row("now", t, "slug", &WinnerLookup::NotSettled);
    assert_eq!(pending[8], "PENDING");
    let failed = reconciliation_row("now", t, "slug", &WinnerLookup::Failed("boom".to_string()));
    assert_eq!(failed[8], "ERROR");
    assert_eq!(failed[9], "boom");
    let rows = vec![row, pending, failed.clone(), failed];
    assert_eq!(count_with_status(&rows, "ERROR"), 2);
    assert_eq!(count_with_status(&rows, "MISMATCH"), 1);
    assert_eq!(official_outcome("up", "UP"), "WIN");
    assert_eq!(reconciliation_status("WIN", "WIN"), "MATCH");
}

#[test]
fn winner_is_the_first_winning_token() {
    assert_eq!(
        official_winner(&vec![("Up".to_string(), false), ("Down".to_string(), true)]),
        Some("DOWN".to_string())
    );
    assert_eq!(official_winner(&vec![("Up".to_string(), false)]), None);
}

#[test]
fn live_test_side_and_verdict() {
    assert_eq!(parse_live_test_side(" up "), Some(Prediction::Up));
    assert_eq!(parse_live_test_side("Down"), Some(Prediction::Down));
    assert_eq!(parse_live_test_side("flat"), None);
    assert_eq!(smoke_verdict(Some("matched")), SmokeVerdict::Filled);
    assert_eq!(smoke_verdict(Some("LIVE")), SmokeVerdict::StillOpen);
    assert_eq!(smoke_verdict(Some("CANCELLED")), SmokeVerdict::Terminal);
    assert_eq!(smoke_verdict(None), SmokeVerdict::Unavailable);
}

#[test]
fn signal_key_slug_reads_back() {
    let key = rusty_poly_streak_rsi::tracker::build_signal_key(
        " Three_Candle ",
        " BTC-UpDown-5m-123 ",
        &Prediction::Down,
    );
    assert_eq!(key, "three_candle:btc-updown-5m-123:DOWN");
    assert_eq!(
        extract_updown_slug(&key),
        Some("btc-updown-5m-123".to_string())
    );
    let other = rusty_poly_streak_rsi::tracker::build_signal_key("s", "sol-updown-5m-1", &Prediction::Up);
    assert_eq!(extract_updown_slug(&other), None);
}
