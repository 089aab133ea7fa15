[package]
name = "mcp_kit"
version = "0.1.0"
edition = "2021"
publish = false

[dependencies]
axum = { version = "=0.8.9", features = ["ws"] }
futures = "=0.3.34"
futures-util = "=0.3.34"
serde = { version = "=1.0.229", features = ["derive"] }
serde_json = "=1.0.154"
thiserror = "=2.0.21"
tokio = { version = "=1.54.1", features = ["full"] }
tokio-util = "=0.7.20"
tracing = "=0.1.44"
uuid = { version = "=1.29.0", features = ["v4"] }
wasmtime = "=44.0.3"
worker = "=0.8.7"

[dev-dependencies]
wat = "=1.263.0"
