[package]
name = "luo9_bot"
version = "0.1.0"
edition = "2021"
publish = false

[dependencies]
chrono = "0.4"
serde = { version = "1", features = ["derive"] }
serde_json = "1"
toml = "*"
tokio = { version = "1", features = ["full"] }
tokio-tungstenite = "*"
futures-util = "0.3"
axum = { version = "0.8", features = ["multipart"] }
tower-http = { version = "*", features = ["cors"] }
reqwest = { version = "*", features = ["json"] }
libloading = "*"
tracing = "0.1"
tracing-subscriber = { version = "0.3", features = ["env-filter"] }
dirs = "*"
async-stream = "*"
thiserror = "*"
luo9_sdk = "*"
