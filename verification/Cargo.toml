[package]
name = "reminders"
version = "0.1.0"
edition = "2021"
publish = false

[dependencies]
ahash = "=0.7.8"
chrono = "=0.4.45"
chrono-tz = "=0.6.3"
cron = "0.17"
dotenv = "=0.15.0"
serde = { version = "=1.0.229", features = ["derive"] }
serde_json = "=1.0.154"
serenity = { version = "=0.10.10", default-features = false, features = ["builder", "cache", "client", "gateway", "http", "model", "rustls_backend", "unstable_discord_api"] }
slotmap = { version = "=1.1.1", features = ["serde"] }
tokio = { version = "=1.54.1", features = ["fs", "io-util", "macros", "rt-multi-thread", "sync", "time"] }
