[package]
name = "cpex"
version = "0.1.0"
edition = "2021"
publish = false

[dependencies]
wildmatch = "2"
uuid = { version = "1", features = ["v4", "serde"] }
serde = { version = "1", features = ["derive"] }
serde_json = "1"
serde_yaml = "0.9"
tokio = { version = "1", features = ["full"] }
tokio-util = { version = "0.7", features = ["rt"] }
async-trait = "0.1"
tracing = "0.1"
thiserror = "2"
anyhow = "1"
rmp-serde = "1"
serde_bytes = "0.11"
