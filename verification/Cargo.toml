[package]
name = "solana_proxy"
version = "0.1.0"
edition = "2021"
publish = false

[dependencies]
anyhow = "1"
axum = { version = "0.7", default-features = false, features = ["http1", "json", "query", "tokio"] }
base64 = "0.22"
bincode = "1.3"
bs58 = "0.5"
chrono = { version = "0.4", default-features = false, features = ["now"] }
clap = { version = "4", default-features = false, features = ["derive", "std", "help", "usage", "error-context"] }
reqwest = { version = "0.12", default-features = false, features = ["json", "rustls-tls"] }
serde = { version = "1", features = ["derive"] }
serde_json = "1"
solana-sdk = { version = "~2.3", default-features = false, features = ["full"] }
tokio = { version = "1", default-features = false, features = ["macros", "net", "rt-multi-thread", "sync", "time"] }
tracing = "0.1"
tracing-subscriber = { version = "0.3", default-features = false, features = ["fmt"] }
