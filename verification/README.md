# rusty_poly_streak_rsi

A bot that trades the Polymarket "Up or Down" crypto markets from Binance
candles: a strategy votes on each closed candle, the bot buys the predicted
side of the next candle's market, follows the order until its status is
final, and judges the trade on the colour of its target candle.

## Layout

- `src/` is the verified library (Verus). It holds the decisions and the
  data handling of the bot, each function with a contract:
  - `config`: the settings' parsers and their validation;
  - `interval`, `trade_timing`, `trading_filter`: candle intervals,
    timestamps and latencies, excluded days and hours;
  - `strategy`, `money`: votes, streaks and the loss streak that sizes
    the stake;
  - `polymarket`: market slugs, API bases, order errors and their retry
    schedule, request signatures, the answers of the exchange;
  - `eip712`: the typed-data digests that orders and API keys are signed
    with;
  - `logger`: the CSV trade journal (its schema, field updates, schema
    migration);
  - `tracker`: the book of pending trades, their follow-up and validation;
  - `trading_runtime`: what the bot decides when a candle closes;
  - `runtime_metrics`, `tools`: counters, and the reconciliation report;
  - `text`: the string functions the others are built on.
  Calls into outside crates (`csv`, `serde_json`, `base64`, `hmac`,
  `sha2`, `alloy`) stand behind small trusted wrappers whose contracts
  say what the library relies on.
- `app/` is the program around it: configuration from the environment,
  the HTTP and websocket clients, the candle loop, the order signer, and
  the floating-point indicators of the strategies.
- `tests/` runs the library on concrete values.
- `app/polymarket.rs` sends orders through the Polymarket SDK crate
  `polymarket_client_sdk_v2`, which `Cargo.toml` does not list; `app/`
  needs it to build.
