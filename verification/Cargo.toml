[package]
name = "hushwarren"
version = "0.1.0"
edition = "2021"
publish = false

[dependencies]
arc-swap = "=1.9.3"
async-trait = "=0.1.92"
axum = "=0.8.9"
bytes = "=1.12.1"
clap = { version = "=4.6.7", features = ["derive"] }
hickory-proto = { version = "=0.26.3", features = ["std"] }
hickory-resolver = { version = "=0.26.3", features = ["tls-ring", "https-ring"] }
hickory-server = { version = "=0.26.3", features = ["tls-ring", "quic-ring"] }
odoh-rs = "=1.0.5"
rand = "=0.10.3"
rcgen = "=0.14.10"
reqwest = { version = "=0.12.28", default-features = false, features = ["rustls-tls", "http2", "gzip"] }
rusqlite = { version = "=0.41.1", features = ["bundled"] }
rustls = { version = "=0.23.46", default-features = false, features = ["ring", "std", "tls12"] }
serde = { version = "=1.0.229", features = ["derive"] }
serde_json = "=1.0.154"
socket2 = "=0.6.5"
subtle = "=2.6.1"
thiserror = "=2.0.21"
tokio = { version = "=1.54.1", features = ["full"] }
tokio-util = "=0.7.20"
toml = "=1.1.8"
tracing = "=0.1.44"
tracing-subscriber = { version = "=0.3.23", features = ["env-filter"] }
windows-service = "0.8"
