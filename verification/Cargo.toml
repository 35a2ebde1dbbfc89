[package]
name = "kagi_mcp"
version = "0.1.0"
edition = "2021"
publish = false

[dependencies]
url = "=2.5.8"
publicsuffix = "=2.3.0"
xxhash-rust = { version = "=0.8.19", features = ["xxh3"] }
html-escape = "=0.2.15"
regex = "=1.13.1"
serde = { version = "=1.0.229", features = ["derive"] }
serde_json = "=1.0.154"
clap = { version = "=4.6.7", features = ["derive", "env"] }
tokio = { version = "=1.54.1", features = ["full"] }
reqwest = { version = "=0.12.28", default-features = false, features = ["json", "rustls-tls"] }
reqwest-middleware = "=0.4.2"
reqwest-retry = "=0.7.0"
rmcp = { version = "=3.8.0", features = ["transport-streamable-http-server"] }
axum = "=0.8.9"
sqlx = { version = "=0.8.6", default-features = false, features = ["runtime-tokio", "sqlite"] }
tracing = "=0.1.44"
tracing-subscriber = { version = "=0.3.23", features = ["env-filter"] }
tracing-appender = "=0.2.5"
chrono = "=0.4.45"
dirs = "=5.0.1"
shellexpand = "=3.1.2"
anyhow = "=1.0.104"
async-trait = "=0.1.92"
thiserror = "=2.0.21"
