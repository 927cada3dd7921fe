[package]
name = "rk9"
version = "0.1.0"
edition = "2021"
publish = false

[dependencies]
anyhow = "=1.0.104"
env_logger = "=0.11.11"
log = "=0.4.35"
poise = "=0.6.2"
rusqlite = { version = "=0.41.1", features = ["bundled", "fallible_uint"] }
serde = { version = "=1.0.229", features = ["derive"] }
timeago = "=0.6.1"
tokio = { version = "=1.54.1", features = ["full"] }
toml = "=1.1.8"
