[package]
name = "ad-nope"
version = "0.1.0"
edition = "2021"
publish = false

[dependencies]
rustc-hash = "2"
dashmap = "6"
url = "2"
hickory-server = "0.25"
hickory-resolver = { version = "0.25", features = ["tls-ring", "https-ring", "quic-ring", "h3-ring"] }
moka = { version = "0.12", features = ["future"] }
arc-swap = "1"
tokio = { version = "1", features = ["full"] }
tokio-util = { version = "0.7", features = ["io"] }
async-trait = "0.1"
anyhow = "1"
axum = "0.8"
futures = "0.3"
reqwest = { version = "0.12", default-features = false, features = ["rustls-tls", "stream"] }
rusqlite = { version = "*", features = ["bundled"] }
rust-embed = "8"
mime_guess = "2"
serde = { version = "1", features = ["derive"] }
serde_json = "1"
toml = "*"
tracing = "0.1"
tracing-subscriber = { version = "0.3", features = ["env-filter"] }
