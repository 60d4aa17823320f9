[package]
name = "seaweed_volume"
version = "0.1.0"
edition = "2021"
publish = false

[dependencies]
bytes = "=1.12.1"
serde_json = "=1.0.154"
thiserror = "=1.0.69"
tokio = { version = "=1.54.1", features = ["io-util", "net", "rt", "rt-multi-thread", "sync", "time"] }
tonic-build = "0.12"
tracing = "=0.1.44"
