[package]
name = "rustsniffer"
version = "0.1.0"
edition = "2021"
publish = false

[dependencies]
etherparse = "0.16"
md-5 = "0.10"
chrono = "0.4"
pcap = "2"
tokio = { version = "1", features = ["full"] }
clap = { version = "4", features = ["derive"] }
serde = { version = "1", features = ["derive"] }
serde_json = "1"
toml = "0.8"
rusqlite = { version = "0.31", features = ["bundled"] }
dirs = "5"
tracing = "0.1"
tracing-subscriber = { version = "0.3", features = ["env-filter", "json"] }
tracing-appender = "0.2"
thiserror = "1"
anyhow = "1"

[dev-dependencies]
tempfile = "3"
