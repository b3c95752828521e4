[package]
name = "lmsr_bot"
version = "0.1.0"
edition = "2021"
publish = false

[dependencies]
hmac-sha256 = "*"
base64 = "*"
chrono = "*"
uuid = { version = "*", features = ["v4"] }
anyhow = "*"
async-trait = "*"
axum = "*"
futures-util = "*"
governor = "*"
reqwest = { version = "*", default-features = false, features = ["json", "rustls-tls"] }
serde = { version = "*", features = ["derive"] }
serde_json = "*"
tokio = { version = "*", features = ["full"] }
tokio-tungstenite = "*"
toml = "*"
tracing = "*"
tracing-subscriber = { version = "*", features = ["env-filter", "json"] }
