[package]
name = "rusty_poly_streak_rsi"
version = "0.1.0"
edition = "2021"
publish = false

[dependencies]
alloy = { version = "*", default-features = false, features = ["std", "signer-local"] }
anyhow = "*"
base64 = "0.22.1"
chrono = "*"
csv = "*"
dotenvy = "*"
futures-util = "*"
hmac = "0.12.1"
reqwest = { version = "0.12", default-features = false, features = ["json"] }
serde = { version = "*", features = ["derive"] }
serde_json = "*"
sha2 = "0.10.9"
tokio = { version = "*", features = ["full"] }
tokio-tungstenite = "0.23"
tracing = "*"
tracing-subscriber = { version = "*", features = ["env-filter"] }
uuid = { version = "*", features = ["v4"] }
