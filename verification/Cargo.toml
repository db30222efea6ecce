[package]
name = "postfix_ratelimit"
version = "0.1.0"
edition = "2021"
publish = false

[dependencies]
regex = "=1.13.1"
toml = "=0.8.23"
serde = { version = "=1.0.229", features = ["derive"] }
log = "=0.4.35"
fern = "=0.7.1"
chrono = "=0.4.45"
signal-hook = "=0.4.6"
tokio = { version = "=1.54.1", features = ["full"] }
tokio-rusqlite = "=0.8.0"
rusqlite = { version = "=0.40.2", features = ["bundled", "backup"] }
indymilter = "=0.3.0"
