[package]
name = "qb_och"
version = "0.1.0"
edition = "2021"
publish = false

[dependencies]
anyhow = "=1.0.104"
base64 = "=0.22.1"
chrono = { version = "=0.4.45", default-features = false, features = ["clock", "std", "serde"] }
clap = { version = "=4.6.7", features = ["derive"] }
crossterm = "=0.29.0"
dirs = "=6.0.0"
qbit-rs = "=0.4.8"
ratatui = "=0.30.2"
ratatui-notifications = "=0.1.0"
reqwest = { version = "=0.12.28", default-features = false, features = ["json", "rustls-tls"] }
serde = { version = "=1.0.229", features = ["derive"] }
serde_json = "=1.0.154"
tokio = { version = "=1.54.1", features = ["rt-multi-thread", "macros", "process", "io-util", "time"] }
toml = "=0.8.23"
url = "=2.5.8"
