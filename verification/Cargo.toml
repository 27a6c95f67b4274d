[package]
name = "ws_gateway"
version = "0.1.0"
edition = "2021"
publish = false

[dependencies]
minijinja = "2"
short-uuid = "*"
anyhow = "1"
async-fs = "2"
axum = { version = "0.8", features = ["ws"] }
figment = { version = "0.10", features = ["toml", "env"] }
futures = "0.3"
rdkafka = "0.37"
reqwest = { version = "0.12", default-features = false, features = ["json"] }
serde = { version = "1", features = ["derive"] }
serde_json = "1"
thiserror = "2"
tokio = { version = "1", features = ["full"] }
tracing = "0.1"
tracing-subscriber = "0.3"
notify = "8"
