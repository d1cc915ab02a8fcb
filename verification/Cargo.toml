[package]
name = "silence"
version = "0.1.0"
edition = "2021"
publish = false

[dependencies]
rmp-serde = "*"
serde = { version = "*", features = ["derive"] }
tokio = { version = "*", features = ["full"] }
tokio-util = "*"
parking_lot = "*"
uuid = { version = "*", features = ["v4", "serde"] }
anyhow = "*"
thiserror = "*"
tracing = "*"
silence-core = "*"
