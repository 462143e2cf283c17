[package]
name = "twifip"
version = "0.1.0"
edition = "2021"
publish = false

[dependencies]
anyhow = "1"
attohttpc = "*"
dotenvy = "*"
log = "0.4"
rustfm-scrobble-proxy = "*"
serde = { version = "1", features = ["derive"] }
serde_json = "1"
thiserror = "*"
tokio = { version = "1", features = ["macros", "rt-multi-thread", "signal", "time", "sync"] }
tokio-cron-scheduler = { version = "*", features = ["signal"] }
