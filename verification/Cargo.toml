[package]
name = "atri"
version = "0.1.0"
edition = "2021"
publish = false

[dependencies]
lru = "=0.12.5"
url = "=2.5.8"
parking_lot = "=0.12.5"
anyhow = "=1.0.104"
serde = { version = "=1.0.229", features = ["derive"] }
tokio = { version = "=1.54.1", features = ["macros", "rt-multi-thread"] }
tracing = "=0.1.44"
tracing-subscriber = "=0.3.23"
reqwest = { version = "=0.11.27", default-features = false, features = ["json", "rustls-tls"] }
teloxide = { version = "=0.12.2", default-features = false, features = ["macros", "throttle", "cache-me", "rustls", "ctrlc_handler"] }
dptree = "=0.3.0"
meilisearch-sdk = "=0.24.3"
takecell = "=0.1.1"
