[package]
name = "iris"
version = "0.1.0"
edition = "2021"
publish = false

[dependencies]
anyhow = "=1.0.104"
argon2 = "=0.6.0"
axum = "=0.8.9"
axum-extra = { version = "=0.12.6", features = ["cookie"] }
base64 = "=0.23.1"
chrono = { version = "=0.4.45", features = ["serde"] }
figment = { version = "=0.10.19", features = ["toml", "env"] }
http = "=1.5.0"
jsonwebtoken = { version = "=11.1.0", features = ["rust_crypto"] }
rand = "=0.10.3"
reqwest = { version = "=0.13.5", default-features = false, features = ["json", "stream", "query"] }
serde = { version = "=1.0.229", features = ["derive"] }
serde_json = { version = "=1.0.154", features = ["preserve_order", "raw_value"] }
sha2 = "=0.11.1"
thiserror = "=2.0.21"
time = "=0.3.55"
tokio = { version = "=1.54.1", features = ["full"] }
tokio-util = { version = "=0.7.20", features = ["io"] }
toml = "=1.1.8"
tracing = "=0.1.44"
uuid = { version = "=1.29.0", features = ["v4", "serde"] }
