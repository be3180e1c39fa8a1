[package]
name = "firehose_ingest"
version = "0.1.0"
edition = "2021"
publish = false

[dependencies]
arrow = "*"
chrono = "=0.4.45"
lru = { version = "=0.18.5", default-features = false }
parquet = "*"
serde = { version = "*", features = ["derive"] }
serde_json = "*"
tokio = { version = "*", features = ["full"] }
tungstenite = "*"
uuid = { version = "=1.27.0", features = ["v4"] }
