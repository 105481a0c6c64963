[package]
name = "matrix_sync"
version = "0.1.0"
edition = "2021"
publish = false

[dependencies]
eyeball = "0.8"
napi = "2"
napi-derive = "2"
ruma = "0.9"
serde_json = "1"
thiserror = "1"
tokio = { version = "1", features = ["sync", "time"] }
tracing = "0.1"
