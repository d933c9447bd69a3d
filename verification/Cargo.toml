[package]
name = "rest_sync"
version = "0.1.0"
edition = "2021"
publish = false

[dependencies]
anyhow = "=1.0.104"
clap = { version = "=4.6.7", features = ["derive", "env"] }
env_logger = "=0.11.11"
log = "=0.4.34"
reqwest = "=0.12.28"
reqwest-middleware = "=0.4.2"
reqwest-retry = "=0.7.0"
serde = { version = "=1.0.229", features = ["derive"] }
serde_json = "=1.0.154"
sha2 = "=0.10.9"
tokio = { version = "=1.54.1", features = ["macros", "rt-multi-thread", "signal"] }
tokio-cron-scheduler = "=0.15.1"
