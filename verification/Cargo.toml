[package]
name = "procstats"
version = "0.1.0"
edition = "2021"
publish = false

[dependencies]
anyhow = "*"
clickhouse = "*"
serde = { version = "*", features = ["derive"] }
tokio = { version = "*", features = ["full"] }
tracing = "*"
tracing-subscriber = "*"
