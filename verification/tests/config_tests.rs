use rusty_poly_streak_rsi::config::{
    parse_ensemble_min_votes, parse_excluded_days, parse_excluded_hours, parse_execution_mode,
    parse_hour_range, parse_market_order_type, parse_signature_type, validate_trading_settings,
    ConfigError, ExecutionMode, MarketOrderType,
};

#[test]
fn test_execution_mode_as_str_dryrun() {
    assert_eq!(ExecutionMode::DryRun.as_str(), "DRY_RUN");
}

#[test]
fn test_execution_mode_as_str_market() {
    assert_eq!(ExecutionMode::Market.as_str(), "MARKET");
}

#[test]
fn test_execution_mode_as_str_limit() {
    assert_eq!(ExecutionMode::Limit.as_str(), "LIMIT");
}

#[test]
fn test_execution_mode_as_str_uppercase_consistent() {
    for mode in [ExecutionMode::DryRun, ExecutionMode::Market, ExecutionMode::Limit] {
        let s = mode.as_str();
        assert_eq!(s, s.to_uppercase());
    }
}

#[test]
fn execution_mode_is_read_exactly() {
    assert_eq!(parse_execution_mode("market"), Ok(ExecutionMode::Market));
    assert_eq!(parse_execution_mode("limit"), Ok(ExecutionMode::Limit));
    assert_eq!(parse_execution_mode("dry-run"), Ok(ExecutionMode::DryRun));
    assert_eq!(parse_execution_mode("dryrun"), Ok(ExecutionMode::DryRun));
    assert_eq!(
        parse_execution_mode("MARKET"),
        Err(ConfigError::UnknownExecutionMode("MARKET".to_string()))
    );
}

#[test]
fn excluded_days_are_trimmed_and_lowercased() {
    assert_eq!(
        parse_excluded_days(" Sat, ,SUN,"),
        vec!["sat".to_string(), "sun".to_string()]
    );
    assert!(parse_excluded_days("").is_empty());
}

#[test]
fn excluded_hours_keep_valid_ranges() {
    assert_eq!(
        parse_excluded_hours("0-9, 22h-24h, 9-9, 5-25, x, 3-4-5,"),
        vec![(0, 9), (22, 24)]
    );
    assert_eq!(parse_hour_range(&"  7h - 8 ".chars().collect()), Some((7, 8)));
    assert_eq!(parse_hour_range(&"7".chars().collect()), None);
}

#[test]
fn signature_type_and_votes() {
    assert_eq!(parse_signature_type("2"), Some(2));
    assert_eq!(parse_signature_type("3"), None);
    assert_eq!(parse_signature_type("x"), None);
    assert_eq!(parse_ensemble_min_votes(Some("4")), 4);
    assert_eq!(parse_ensemble_min_votes(Some("-1")), 1);
    assert_eq!(parse_ensemble_min_votes(None), 1);
}

#[test]
fn market_order_type_is_fok_or_fak() {
    assert_eq!(parse_market_order_type(Some("fak")), Ok(MarketOrderType::Fak));
    assert_eq!(parse_market_order_type(Some("fok")), Ok(MarketOrderType::Fok));
    assert_eq!(parse_market_order_type(None), Ok(MarketOrderType::Fok));
    assert_eq!(
        parse_market_order_type(Some("ioc")),
        Err(ConfigError::UnknownMarketOrderType("ioc".to_string()))
    );
}

#[test]
fn sending_modes_need_key_url_and_funder() {
    let url = "https://clob.polymarket.com";
    assert_eq!(
        validate_trading_settings(ExecutionMode::DryRun, false, "x", Some(2), false),
        Ok(())
    );
    assert_eq!(
        validate_trading_settings(ExecutionMode::Market, false, url, None, false),
        Err(ConfigError::MissingPrivateKey)
    );
    assert_eq!(
        validate_trading_settings(ExecutionMode::Market, true, "clob.polymarket.com", None, false),
        Err(ConfigError::InvalidClobUrl("clob.polymarket.com".to_string()))
    );
    assert_eq!(
        validate_trading_settings(ExecutionMode::Limit, true, url, Some(2), false),
        Err(ConfigError::MissingFunder)
    );
    assert_eq!(
        validate_trading_settings(ExecutionMode::Limit, true, "http://127.0.0.1:1", Some(0), false),
        Ok(())
    );
    assert_eq!(
        validate_trading_settings(ExecutionMode::Market, true, url, Some(1), true),
        Ok(())
    );
}

#[test]
fn test_config_parses_market_order_type_fak() {
    assert_eq!(parse_market_order_type(Some("fak")), Ok(MarketOrderType::Fak));
}

#[test]
fn test_config_rejects_unknown_market_order_type() {
    assert_eq!(
        parse_market_order_type(Some("ioc")),
        Err(ConfigError::UnknownMarketOrderType("ioc".to_string()))
    );
}

#[test]
fn test_config_unknown_execution_mode_returns_error() {
    assert!(parse_execution_mode("MARKET").is_err());
}

#[test]
fn test_config_parses_excluded_days_and_hours() {
    assert_eq!(parse_excluded_days("Sat, sun"), vec!["sat", "sun"]);
    assert_eq!(
        parse_excluded_hours("0-9,22h-24h,bad,9-9,24-25"),
        vec![(0, 9), (22, 24)]
    );
}

#[test]
fn test_config_market_mode_requires_private_key() {
    let mode = parse_execution_mode("market").unwrap();
    assert_eq!(
        validate_trading_settings(mode, false, "https://clob.polymarket.com", None, false),
        Err(ConfigError::MissingPrivateKey)
    );
}

#[test]
fn test_config_market_mode_rejects_invalid_clob_url() {
    let mode = parse_execution_mode("market").unwrap();
    assert_eq!(
        validate_trading_settings(mode, true, "clob.polymarket.com", None, false),
        Err(ConfigError::InvalidClobUrl("clob.polymarket.com".to_string()))
    );
}

#[test]
fn test_config_proxy_signature_requires_funder() {
    let mode = parse_execution_mode("limit").unwrap();
    let signature_type = parse_signature_type("2");
    assert_eq!(
        validate_trading_settings(mode, true, "https://clob.polymarket.com", signature_type, false),
        Err(ConfigError::MissingFunder)
    );
}
