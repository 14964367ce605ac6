pub mod config;
pub mod eip712;
pub mod interval;
pub mod logger;
pub mod money;
pub mod polymarket;
pub mod runtime_metrics;
pub mod strategy;
pub mod text;
pub mod trade_timing;
pub mod tracker;
pub mod trading_filter;
pub mod trading_runtime;
pub mod tools;
