[package]
name = "rosa"
version = "0.1.0"
edition = "2021"
publish = false

[dependencies]
serde_json = "1"
anyhow = "1"
tokio = { version = "1", features = ["rt-multi-thread", "macros", "sync", "time"] }
reqwest = { version = "0.12", default-features = false, features = ["rustls-tls"] }
crossterm = "0.28"
ratatui = "0.29"
dotenvy = "0.15"
tracing = "0.1"
