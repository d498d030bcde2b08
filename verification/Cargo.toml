[package]
name = "driftling"
version = "0.1.0"
edition = "2021"
publish = false

[dependencies]
sha2 = "0.10"
getrandom = "0.3"
serde = { version = "1", features = ["derive"] }
serde_json = "1"
toml = "0.8"
axum = "0.8"
tokio = { version = "1", features = ["rt-multi-thread", "net", "signal", "macros"] }
rusqlite = { version = "0.32", features = ["bundled"] }
clap = { version = "4", features = ["derive"] }
anyhow = "1"
log = "0.4"
env_logger = "0.11"
