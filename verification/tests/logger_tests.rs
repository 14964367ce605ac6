use rusty_poly_streak_rsi::logger::{
    csv_headers, log_order_ack, LoggerError, PendingBuyTradeRecord, TradeLogger, TradeRecord,
};
use rusty_poly_streak_rsi::trade_timing::TradeLatencies;

fn record(trade_id: &str, signal_key: &str) -> TradeRecord {
    TradeRecord::pending_buy(PendingBuyTradeRecord {
        trade_id,
        signal_key,
        symbol: "btcusdt",
        interval: "5m",
        signal_close_time_utc: "2026-05-19T10:00:00+00:00",
        target_candle_open_time_utc: "2026-05-19T10:05:00+00:00",
        prediction: "UP",
        entry_order_type: "MARKET",
        order_status: "LIVE",
        latencies: TradeLatencies {
            signal_to_submit_start_ms: 12,
            submit_start_to_ack_ms: 34,
            signal_to_ack_ms: 46,
            trade_open_to_order_ack_ms: -5,
        },
    })
}

fn rows(logger: &TradeLogger) -> Vec<Vec<String>> {
    let mut rdr = csv::ReaderBuilder::new()
        .has_headers(false)
        .flexible(true)
        .from_reader(logger.text().as_bytes());
    rdr.records()
        .map(|r| r.unwrap().iter().map(|f| f.to_string()).collect())
        .collect()
}

#[test]
fn new_journal_starts_with_the_header_line() {
    for existing in [None, Some(String::new())] {
        let logger = TradeLogger::new(existing).unwrap();
        assert_eq!(rows(&logger), vec![csv_headers()]);
        assert_eq!(csv_headers().len(), 15);
        assert_eq!(csv_headers()[1], "signal_key");
    }
}

#[test]
fn existing_current_journal_is_kept() {
    let text = format!("{}\nt1,k1\n", csv_headers().join(","));
    let logger = TradeLogger::new(Some(text.clone())).unwrap();
    assert_eq!(logger.text(), text);
}

#[test]
fn log_trade_appends_the_record() {
    let mut logger = TradeLogger::new(None).unwrap();
    logger.log_trade(&record("t1", "k1")).unwrap();
    logger.log_trade(&record("t2", "k2")).unwrap();
    let r = rows(&logger);
    assert_eq!(r.len(), 3);
    assert_eq!(r[1][0], "t1");
    assert_eq!(r[2][0], "t2");
    assert_eq!(r[1][7], "BUY");
    assert_eq!(r[1][14], "PENDING");
    assert_eq!(&r[1][10..14], &["12", "34", "46", "-5"]);
}

#[test]
fn signal_keys_are_found() {
    let mut logger = TradeLogger::new(None).unwrap();
    logger.log_trade(&record("t1", "strat:btc-updown-5m-1:UP")).unwrap();
    assert_eq!(logger.has_signal_key("strat:btc-updown-5m-1:UP"), Ok(true));
    assert_eq!(logger.has_signal_key("strat:btc-updown-5m-1:DOWN"), Ok(false));
}

#[test]
fn outcome_and_status_updates_touch_only_their_trade() {
    let mut logger = TradeLogger::new(None).unwrap();
    logger.log_trade(&record("t1", "k1")).unwrap();
    logger.log_trade(&record("t2", "k2")).unwrap();
    logger.update_outcome("t2", "WIN").unwrap();
    logger.update_order_status("t1", "CANCELLED").unwrap();
    let r = rows(&logger);
    assert_eq!(r[1][9], "CANCELLED");
    assert_eq!(r[1][14], "PENDING");
    assert_eq!(r[2][9], "LIVE");
    assert_eq!(r[2][14], "WIN");
}

#[test]
fn update_of_missing_column_fails_and_keeps_the_journal() {
    let text = "trade_id,signal_key\nt1,k1\n".to_string();
    let mut logger = TradeLogger::new(Some(text.clone())).unwrap();
    assert_eq!(
        logger.update_outcome("t1", "WIN"),
        Err(LoggerError::MissingColumn("outcome".to_string()))
    );
    assert_eq!(logger.text(), text);
}

#[test]
fn old_schema_gets_an_empty_signal_key() {
    let old = "trade_id,symbol,interval,signal_close_time_utc,target_candle_open_time_utc,prediction,entry_side,entry_order_type,order_status,signal_to_submit_start_ms,submit_start_to_ack_ms,signal_to_ack_ms,trade_open_to_order_ack_ms,outcome\n\
t1,btcusdt,5m,a,b,UP,BUY,MARKET,LIVE,1,2,3,4,WIN\n\
t2,btcusdt,5m,a,b,DOWN,BUY,MARKET,LIVE,1,2,3,4,LOSS,extra\n";
    let logger = TradeLogger::new(Some(old.to_string())).unwrap();
    let r = rows(&logger);
    assert_eq!(r[0], csv_headers());
    assert_eq!(r[1][0], "t1");
    assert_eq!(r[1][1], "");
    assert_eq!(r[1][2], "btcusdt");
    assert_eq!(r[1][14], "WIN");
    // a record of another length is only fitted to the columns
    assert_eq!(r[2].len(), 15);
    assert_eq!(r[2][1], "btcusdt");
}

#[test]
fn order_ack_message_names_order_status_and_latency() {
    assert_eq!(
        log_order_ack("0xabc", "MATCHED", 125),
        "[ORDRE ACK] id=0xabc status=MATCHED latence=125ms"
    );
    assert_eq!(
        log_order_ack("o", "LIVE", -3),
        "[ORDRE ACK] id=o status=LIVE latence=-3ms"
    );
}

#[test]
fn fields_needing_quotes_survive_an_update() {
    let mut logger = TradeLogger::new(None).unwrap();
    logger.log_trade(&record("t,1", "k\"1")).unwrap();
    logger.log_trade(&record("t2", "line\nbreak")).unwrap();
    logger.update_outcome("t,1", "LOSS, late").unwrap();
    let r = rows(&logger);
    assert_eq!(r.len(), 3);
    assert_eq!(r[1][0], "t,1");
    assert_eq!(r[1][1], "k\"1");
    assert_eq!(r[1][14], "LOSS, late");
    assert_eq!(r[2][1], "line\nbreak");
    assert_eq!(r[2][14], "PENDING");
    assert_eq!(logger.has_signal_key("line\nbreak"), Ok(true));
}

fn make_record(trade_id: &str, prediction: &str) -> TradeRecord {
    TradeRecord {
        trade_id: trade_id.to_string(),
        signal_key: format!("sig-{}", trade_id),
        symbol: "BTCUSDT".to_string(),
        interval: "5m".to_string(),
        signal_close_time_utc: "2024-01-01T00:00:00+00:00".to_string(),
        target_candle_open_time_utc: "2024-01-01T00:05:00+00:00".to_string(),
        prediction: prediction.to_string(),
        entry_side: "BUY".to_string(),
        entry_order_type: "DRY_RUN".to_string(),
        order_status: "DRY_RUN".to_string(),
        signal_to_submit_start_ms: 10,
        submit_start_to_ack_ms: 5,
        signal_to_ack_ms: 15,
        trade_open_to_order_ack_ms: 20,
        outcome: "PENDING".to_string(),
    }
}

const OLD_SCHEMA_HEADER: &str = "trade_id,symbol,interval,signal_close_time_utc,target_candle_open_time_utc,prediction,entry_side,entry_order_type,order_status,signal_to_submit_start_ms,submit_start_to_ack_ms,signal_to_ack_ms,trade_open_to_order_ack_ms,outcome\n";

#[test]
fn test_logger_csv_contains_headers() {
    let logger = TradeLogger::new(None).unwrap();
    let content = logger.text();
    for header in &[
        "trade_id", "signal_key", "symbol", "interval", "prediction",
        "order_status", "outcome", "signal_to_ack_ms",
    ] {
        assert!(content.contains(header), "missing header: {}", header);
    }
}

#[test]
fn test_logger_writes_headers_on_empty_existing_file() {
    let logger = TradeLogger::new(Some(String::new())).unwrap();
    assert!(logger.text().contains("trade_id"));
}

#[test]
fn test_logger_does_not_overwrite_existing_data() {
    let mut logger = TradeLogger::new(None).unwrap();
    logger.log_trade(&make_record("id-first", "UP")).unwrap();
    let content_before = logger.text().to_string();
    let line_count_before = content_before.lines().count();

    let mut logger2 = TradeLogger::new(Some(content_before)).unwrap();
    logger2.log_trade(&make_record("id-second", "DOWN")).unwrap();

    let content_after = logger2.text();
    assert_eq!(content_after.lines().count(), line_count_before + 1);
    assert!(!content_after.contains("trade_id\ntrade_id"));
}

#[test]
fn test_log_trade_appends_record() {
    let mut logger = TradeLogger::new(None).unwrap();
    logger.log_trade(&make_record("test-id-123", "UP")).unwrap();
    let content = logger.text();
    assert!(content.contains("test-id-123"));
    assert!(content.contains("BTCUSDT"));
    assert!(content.contains("UP"));
    assert!(content.contains("PENDING"));
}

#[test]
fn test_log_trade_multiple_records_all_present() {
    let mut logger = TradeLogger::new(None).unwrap();
    logger.log_trade(&make_record("id-001", "UP")).unwrap();
    logger.log_trade(&make_record("id-002", "DOWN")).unwrap();
    logger.log_trade(&make_record("id-003", "UP")).unwrap();
    let content = logger.text();
    assert!(content.contains("id-001"));
    assert!(content.contains("id-002"));
    assert!(content.contains("id-003"));
    assert_eq!(content.lines().count(), 4);
}

#[test]
fn test_log_trade_latency_fields_written() {
    let mut logger = TradeLogger::new(None).unwrap();
    let mut record = make_record("lat-test", "UP");
    record.signal_to_submit_start_ms = 42;
    record.submit_start_to_ack_ms = 17;
    record.signal_to_ack_ms = 59;
    record.trade_open_to_order_ack_ms = 310;
    logger.log_trade(&record).unwrap();
    let content = logger.text();
    assert!(content.contains("42"));
    assert!(content.contains("17"));
    assert!(content.contains("59"));
    assert!(content.contains("310"));
}

#[test]
fn test_has_signal_key_finds_existing_signal() {
    let mut logger = TradeLogger::new(None).unwrap();
    let record = make_record("signal-key-id", "UP");
    logger.log_trade(&record).unwrap();
    assert!(logger.has_signal_key(&record.signal_key).unwrap());
    assert!(!logger.has_signal_key("sig-missing").unwrap());
}

#[test]
fn test_logger_migrates_old_csv_schema() {
    let old = format!(
        "{}old-id,BTCUSDT,5m,2024-01-01T00:00:00+00:00,2024-01-01T00:05:00+00:00,UP,BUY,MARKET,Matched,10,11,21,30,MATCHED\n",
        OLD_SCHEMA_HEADER
    );
    let logger = TradeLogger::new(Some(old)).unwrap();
    let mut lines = logger.text().lines();
    let header = lines.next().unwrap();
    let row = lines.next().unwrap();
    assert!(header.contains("signal_key"));
    assert_eq!(header.split(',').count(), 15);
    assert_eq!(row.split(',').count(), 15);
    assert!(row.starts_with("old-id,"));
}

#[test]
fn test_logger_migrates_mixed_old_and_new_rows() {
    let old = format!(
        "{}old-id,BTCUSDT,5m,2024-01-01T00:00:00+00:00,2024-01-01T00:05:00+00:00,UP,BUY,MARKET,Matched,10,11,21,30,MATCHED\n\
new-id,sig-new,BTCUSDT,5m,2024-01-01T00:10:00+00:00,2024-01-01T00:15:00+00:00,DOWN,BUY,MARKET,Matched,12,13,25,40,PENDING\n",
        OLD_SCHEMA_HEADER
    );
    let mut logger = TradeLogger::new(Some(old)).unwrap();
    assert!(logger.has_signal_key("sig-new").unwrap());
    logger.update_outcome("new-id", "MATCHED").unwrap();
    let lines: Vec<_> = logger.text().lines().collect();
    assert_eq!(lines[0].split(',').count(), 15);
    assert_eq!(lines[1].split(',').count(), 15);
    assert_eq!(lines[2].split(',').count(), 15);
    assert!(lines[2].ends_with("MATCHED"));
}

#[test]
fn repeating_a_status_update_changes_nothing() {
    let mut logger = TradeLogger::new(None).unwrap();
    logger.log_trade(&make_record("id-1", "UP")).unwrap();
    logger.log_trade(&make_record("id-2", "DOWN")).unwrap();
    logger.update_order_status("id-1", "MATCHED").unwrap();
    let once = logger.text().to_string();
    logger.update_order_status("id-1", "MATCHED").unwrap();
    assert_eq!(logger.text(), once);
    let r = rows(&logger);
    assert_eq!(r[1][9], "MATCHED");
    assert_eq!(r[2][9], "DRY_RUN");
}

#[test]
fn fresh_journal_is_exactly_the_header_line() {
    let logger = TradeLogger::new(None).unwrap();
    assert_eq!(
        logger.text(),
        "trade_id,signal_key,symbol,interval,signal_close_time_utc,target_candle_open_time_utc,prediction,entry_side,entry_order_type,order_status,signal_to_submit_start_ms,submit_start_to_ack_ms,signal_to_ack_ms,trade_open_to_order_ack_ms,outcome\n"
    );
}

#[test]
fn journal_whose_header_reads_empty_is_migrated() {
    let logger = TradeLogger::new(Some("\u{feff}".to_string())).unwrap();
    assert_eq!(rows(&logger), vec![csv_headers()]);
}

#[test]
fn logged_trade_reads_back_after_the_header() {
    let mut logger = TradeLogger::new(None).unwrap();
    logger.log_trade(&make_record("a,b", "UP")).unwrap();
    let r = rows(&logger);
    assert_eq!(r.len(), 2);
    assert_eq!(r[1][0], "a,b");
    assert_eq!(r[1][1], "sig-a,b");
    assert!(logger.has_signal_key("sig-a,b").unwrap());
}
