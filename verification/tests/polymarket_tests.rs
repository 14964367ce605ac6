use base64::engine::general_purpose::URL_SAFE;
use base64::Engine;
use hmac::{Hmac, Mac};
use rusty_poly_streak_rsi::polymarket::{
    build_slug, compute_hmac_sig, is_clob_temporary_order_error, is_fok_unfilled_error,
    json_member, numeric_field, order_details_value, parse_market_ws_best_ask_message,
    parse_order_status_body, parse_retry_after_secs, resolve_api_bases, select_updown_tokens,
    temporary_order_retry_delay_secs, CancelOrderSummary, JsonValue, MarketError,
    OrderStatusError, RetryDecision, RetryState, SignatureError,
};

fn convert(v: serde_json::Value) -> JsonValue {
    match v {
        serde_json::Value::Null => JsonValue::Null,
        serde_json::Value::Bool(b) => JsonValue::Bool(b),
        serde_json::Value::Number(n) => JsonValue::Number(n.to_string()),
        serde_json::Value::String(s) => JsonValue::Str(s),
        serde_json::Value::Array(a) => JsonValue::Array(a.into_iter().map(convert).collect()),
        serde_json::Value::Object(m) => {
            JsonValue::Object(m.into_iter().map(|(k, x)| (k, convert(x))).collect())
        }
    }
}

fn doc(text: &str) -> JsonValue {
    convert(serde_json::from_str(text).unwrap())
}

fn lowest(prices: Option<Vec<String>>) -> Option<f64> {
    prices?
        .iter()
        .filter_map(|p| p.parse::<f64>().ok())
        .min_by(f64::total_cmp)
}

fn number(v: Option<&JsonValue>) -> Option<f64> {
    match v? {
        JsonValue::Number(n) => n.parse().ok(),
        JsonValue::Str(s) => s.trim().parse().ok(),
        _ => None,
    }
}

// --- order errors and retries ---

#[test]
fn detects_temporary_clob_order_errors() {
    for message in [
        "SDK post_order: Status: error(425 Too Early)",
        "post_only_mode: matching engine restart",
        "service unavailable retry-after: 12",
    ] {
        let err = anyhow::Error::msg(message);
        assert!(is_clob_temporary_order_error(&err.to_string()));
    }
}

#[test]
fn retry_after_seconds_are_parsed_and_capped() {
    let err = anyhow::Error::msg("HTTP 425 retry-after: 120");

    assert_eq!(temporary_order_retry_delay_secs(&err.to_string(), 0), 60);
}

#[test]
fn temporary_retry_uses_fallback_when_retry_after_is_absent() {
    let err = anyhow::Error::msg("HTTP 425 Too Early");

    assert_eq!(temporary_order_retry_delay_secs(&err.to_string(), 1), 15);
}

#[test]
fn retry_after_hint_is_read_after_the_keyword() {
    assert_eq!(parse_retry_after_secs("Retry-After: 12 seconds"), Some(12));
    assert_eq!(parse_retry_after_secs("retry-after"), None);
    assert_eq!(parse_retry_after_secs("425 too early"), None);
    assert_eq!(temporary_order_retry_delay_secs("retry-after: 0", 2), 1);
    assert_eq!(temporary_order_retry_delay_secs("retry-after: 7", 2), 7);
    assert_eq!(temporary_order_retry_delay_secs("busy", 0), 5);
    assert_eq!(temporary_order_retry_delay_secs("busy", 2), 30);
    assert_eq!(temporary_order_retry_delay_secs("busy", 9), 30);
}

#[test]
fn unfilled_fok_errors_are_recognised() {
    assert!(is_fok_unfilled_error("FOK orders are fully filled or killed"));
    assert!(is_fok_unfilled_error("the order couldn't be fully filled"));
    assert!(!is_fok_unfilled_error("insufficient balance"));
    assert!(!is_clob_temporary_order_error("insufficient balance"));
}

#[test]
fn market_order_retries_follow_the_schedule() {
    let mut state = RetryState::new();
    assert_eq!(
        state.on_refusal("HTTP 425 Too Early", true),
        RetryDecision::Retry { delay_secs: 5 }
    );
    assert_eq!(
        state.on_refusal("order couldn't be fully filled", true),
        RetryDecision::Retry { delay_secs: 3 }
    );
    assert_eq!(
        state.on_refusal("order couldn't be fully filled", true),
        RetryDecision::Retry { delay_secs: 7 }
    );
    assert_eq!(
        state.on_refusal("order couldn't be fully filled", true),
        RetryDecision::Retry { delay_secs: 10 }
    );
    assert_eq!(
        state.on_refusal("order couldn't be fully filled", true),
        RetryDecision::GiveUp
    );
    assert_eq!(state.temporary_attempt, 1);
    assert_eq!(state.fok_attempt, 3);
}

#[test]
fn limit_orders_are_not_retried_when_unfilled() {
    let mut state = RetryState::new();
    assert_eq!(
        state.on_refusal("order couldn't be fully filled", false),
        RetryDecision::GiveUp
    );
    for expected in [5, 15, 30] {
        assert_eq!(
            state.on_refusal("service unavailable", false),
            RetryDecision::Retry { delay_secs: expected }
        );
    }
    assert_eq!(state.on_refusal("service unavailable", false), RetryDecision::GiveUp);
    assert_eq!(state, RetryState { temporary_attempt: 3, fok_attempt: 0 });
}

// --- slugs and bases ---

#[test]
fn test_build_slug() {
    // 1710000000000 ms → 1710000000 s
    let slug = build_slug("btc-updown-5m", 1710000000000);
    assert_eq!(slug, "btc-updown-5m-1710000000");
}

#[test]
fn test_build_slug_known_timestamp() {
    let slug = build_slug("btc-updown-5m", 1710000000000);
    assert_eq!(slug, "btc-updown-5m-1710000000");
}

#[test]
fn test_build_slug_format_prefix() {
    let slug = build_slug("btc-updown-5m", 1710000000000);
    assert!(slug.starts_with("btc-updown-5m-"));
}

#[test]
fn test_build_slug_suffix_is_unix_seconds() {
    let slug = build_slug("btc-updown-5m", 1710000000000);
    let suffix = slug.strip_prefix("btc-updown-5m-").unwrap();
    assert_eq!(suffix, "1710000000");
    assert!(suffix.chars().all(|c| c.is_ascii_digit()));
}

#[test]
fn test_build_slug_ms_to_seconds_truncation() {
    let slug = build_slug("btc-updown-5m", 1704067200000);
    assert_eq!(slug, "btc-updown-5m-1704067200");
}

#[test]
fn test_build_slug_different_candles_produce_different_slugs() {
    let slug1 = build_slug("btc-updown-5m", 1710000000000);
    let slug2 = build_slug("btc-updown-5m", 1710000300000);
    assert_ne!(slug1, slug2);
}

#[test]
fn slug_of_instant_before_epoch_truncates_toward_zero() {
    assert_eq!(build_slug("p", -1500), "p--1");
    assert_eq!(build_slug("p", 999), "p-0");
}

#[test]
fn test_client_uses_configured_clob_api_url_without_trailing_slash() {
    let (gamma, clob) = resolve_api_bases(
        "https://gamma-api.polymarket.com",
        "",
        "https://example.test/",
    );
    assert_eq!(gamma, "https://gamma-api.polymarket.com");
    assert_eq!(clob, "https://example.test");
}

#[test]
fn test_client_uses_configured_api_bases_without_trailing_slash() {
    let (gamma, clob) = resolve_api_bases(
        "http://127.0.0.1:1234/",
        "http://127.0.0.1:5678/",
        "https://clob-v2.polymarket.com",
    );
    assert_eq!(gamma, "http://127.0.0.1:1234");
    assert_eq!(clob, "http://127.0.0.1:5678");
}

#[test]
fn blank_clob_settings_fall_back_to_public_address() {
    let (_, clob) = resolve_api_bases("g", "  ", " / ");
    assert_eq!(clob, "https://clob.polymarket.com");
}

// --- market tokens ---

fn gamma_tokens(body: &str) -> (serde_json::Value, Result<(String, String), MarketError>) {
    let markets: serde_json::Value = serde_json::from_str(body).unwrap();
    let market = markets[0].clone();
    let tokens = select_updown_tokens(
        market["outcomes"].as_str().unwrap(),
        market["clobTokenIds"].as_str().unwrap(),
    );
    (market, tokens)
}

#[test]
fn test_parse_gamma_market_body_maps_reversed_outcomes() {
    let body = r#"[{
        "conditionId":"cond",
        "outcomes":"[\"Down\",\"Up\"]",
        "clobTokenIds":"[\"down-token\",\"up-token\"]",
        "orderMinSize":7
    }]"#;

    let (market, tokens) = gamma_tokens(body);

    assert_eq!(market["conditionId"], "cond");
    assert_eq!(
        tokens,
        Ok(("up-token".to_string(), "down-token".to_string()))
    );
    assert_eq!(market["orderMinSize"].as_f64(), Some(7.0));
}

#[test]
fn test_parse_gamma_market_body_rejects_missing_up() {
    let body = r#"[{
        "conditionId":"cond",
        "outcomes":"[\"Down\",\"Flat\"]",
        "clobTokenIds":"[\"down-token\",\"flat-token\"]"
    }]"#;

    let (_, tokens) = gamma_tokens(body);
    assert_eq!(tokens, Err(MarketError::MissingUp));
}

#[test]
fn select_updown_tokens_reports_each_failure() {
    assert_eq!(
        select_updown_tokens("not json", r#"["a","b"]"#),
        Err(MarketError::OutcomesParse)
    );
    assert_eq!(
        select_updown_tokens(r#"["Up","Down"]"#, "[1,2]"),
        Err(MarketError::TokenIdsParse)
    );
    assert_eq!(
        select_updown_tokens(r#"["Up","Flat"]"#, r#"["a","b"]"#),
        Err(MarketError::MissingDown)
    );
    assert_eq!(
        select_updown_tokens(r#"["x","Down","Up"]"#, r#"["a","b"]"#),
        Err(MarketError::MissingUpToken)
    );
    assert_eq!(
        select_updown_tokens(r#"["x","Up","Down"]"#, r#"["a","b"]"#),
        Err(MarketError::MissingDownToken)
    );
    assert_eq!(
        select_updown_tokens(r#"["UP","down","Up"]"#, r#"["a","b","c"]"#),
        Ok(("a".to_string(), "b".to_string()))
    );
}

// --- market channel ---

#[test]
fn test_parse_market_ws_best_ask_message_supports_best_bid_ask() {
    let body = r#"{
        "event_type":"best_bid_ask",
        "asset_id":"token-up",
        "best_bid":"0.50",
        "best_ask":"0.53"
    }"#;

    assert_eq!(
        lowest(parse_market_ws_best_ask_message("token-up", &doc(body))),
        Some(0.53)
    );
}

#[test]
fn test_parse_market_ws_best_ask_message_supports_book_snapshot() {
    let body = r#"{
        "event_type":"book",
        "asset_id":"token-up",
        "asks":[{"price":"0.55"},{"price":"0.52"}]
    }"#;

    assert_eq!(
        lowest(parse_market_ws_best_ask_message("token-up", &doc(body))),
        Some(0.52)
    );
}

#[test]
fn test_parse_market_ws_best_ask_message_supports_price_change() {
    let body = r#"{
        "event_type":"price_change",
        "price_changes":[
            {"asset_id":"token-down","best_ask":"0.60"},
            {"asset_id":"token-up","best_ask":"0.51"}
        ]
    }"#;

    assert_eq!(
        lowest(parse_market_ws_best_ask_message("token-up", &doc(body))),
        Some(0.51)
    );
}

#[test]
fn market_channel_ignores_other_tokens_and_events() {
    let other = r#"{"event_type":"best_bid_ask","asset_id":"token-down","best_ask":"0.4"}"#;
    assert_eq!(parse_market_ws_best_ask_message("token-up", &doc(other)), None);
    let trade = r#"{"event_type":"last_trade_price","asset_id":"token-up","price":"0.4"}"#;
    assert_eq!(parse_market_ws_best_ask_message("token-up", &doc(trade)), None);
    let book = r#"{"event_type":"book","asset_id":"token-up","asks":[{"size":"1"},{"price":"0.7"}]}"#;
    assert_eq!(
        parse_market_ws_best_ask_message("token-up", &doc(book)),
        Some(vec!["0.7".to_string()])
    );
}

// --- order status answers ---

#[test]
fn test_parse_order_status_body_supports_nested_and_array_shapes() {
    assert_eq!(
        parse_order_status_body(&doc(r#"{"status":"matched"}"#)).unwrap(),
        "matched"
    );
    assert_eq!(
        parse_order_status_body(&doc(r#"{"order":{"status":"filled"}}"#)).unwrap(),
        "filled"
    );
    assert_eq!(
        parse_order_status_body(&doc(r#"[{"status":"cancelled"}]"#)).unwrap(),
        "cancelled"
    );
}

#[test]
fn test_parse_order_status_body_rejects_missing_status_with_context() {
    let err = parse_order_status_body(&doc(r#"{"id":"order"}"#)).unwrap_err();

    assert_eq!(err, OrderStatusError::MissingStatus);
}

#[test]
fn order_status_is_trimmed_and_must_not_be_blank() {
    assert_eq!(
        parse_order_status_body(&doc(r#"{"status":"  live \n"}"#)).unwrap(),
        "live"
    );
    assert_eq!(
        parse_order_status_body(&doc(r#"{"status":"   "}"#)),
        Err(OrderStatusError::MissingStatus)
    );
    assert_eq!(
        parse_order_status_body(&doc(r#"{"status":3}"#)),
        Err(OrderStatusError::MissingStatus)
    );
}

#[test]
fn test_parse_order_execution_details_body_extracts_price_fields() {
    let answer = doc(
        r#"{"order":{"status":"matched","price":"0.52","average_price":"0.51","size_matched":"5"}}"#,
    );
    let order = order_details_value(&answer);
    assert_eq!(parse_order_status_body(&answer).unwrap(), "matched");
    assert_eq!(number(numeric_field(order, &["price"])), Some(0.52));
    assert_eq!(
        number(numeric_field(
            order,
            &["average_price", "avg_price", "averagePrice", "avgPrice"]
        )),
        Some(0.51)
    );
    assert_eq!(
        number(numeric_field(
            order,
            &["size_matched", "matched_size", "sizeMatched", "matchedSize"]
        )),
        Some(5.0)
    );
    assert!(numeric_field(order, &["missing"]).is_none());
}

#[test]
fn order_details_prefer_the_order_member() {
    let answer = doc(r#"{"order":{"status":"a"},"status":"b"}"#);
    assert_eq!(
        json_member(order_details_value(&answer), "status"),
        Some(&JsonValue::Str("a".to_string()))
    );
    let empty = doc("[]");
    assert!(matches!(order_details_value(&empty), JsonValue::Array(a) if a.is_empty()));
}

// --- request signatures ---

#[test]
fn test_hmac_sig_wrong_secret_fails() {
    let result = compute_hmac_sig("not!valid!base64", "123", "POST", "/order", "{}");
    assert!(result.is_err());
    assert_eq!(result, Err(SignatureError::InvalidSecret));
}

#[test]
fn test_hmac_sig_valid_secret() {
    let secret = URL_SAFE.encode([0u8; 32]);
    let result = compute_hmac_sig(&secret, "1742256000", "POST", "/order", r#"{"test":1}"#);
    assert!(result.is_ok());
    let sig = result.unwrap();
    assert!(!sig.is_empty());
}

#[test]
fn hmac_signature_matches_direct_computation() {
    let secret = URL_SAFE.encode([7u8; 32]);
    let sig = compute_hmac_sig(&secret, "1700000000", "GET", "/data/order/1", "{'a':1}").unwrap();
    let mut mac = Hmac::<sha2::Sha256>::new_from_slice(&[7u8; 32]).unwrap();
    mac.update(b"1700000000GET/data/order/1{\"a\":1}");
    let expected = URL_SAFE.encode(mac.finalize().into_bytes());
    assert_eq!(sig, expected);
    assert_ne!(sig, secret);
}

// --- cancel summaries ---

#[test]
fn cancel_summary_sorts_refusals_by_order_id() {
    let summary = CancelOrderSummary::new(
        vec!["c".to_string()],
        vec![
            ("0xb".to_string(), "matched".to_string()),
            ("0xa".to_string(), "unknown".to_string()),
            ("0xB".to_string(), "x".to_string()),
        ],
    );
    assert_eq!(summary.canceled, vec!["c".to_string()]);
    assert_eq!(
        summary.not_canceled,
        vec![
            ("0xB".to_string(), "x".to_string()),
            ("0xa".to_string(), "unknown".to_string()),
            ("0xb".to_string(), "matched".to_string()),
        ]
    );
}
