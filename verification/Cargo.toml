[package]
name = "netflow_core"
version = "0.1.0"
edition = "2021"
publish = false

[dependencies]
arrow-array = "=59.3.2"
arrow-buffer = "=59.3.2"
arrow-schema = "=59.3.2"
env_logger = "=0.11.11"
serde = { version = "=1.0.229", features = ["derive"] }
serde_json = "=1.0.154"
vgi = "=0.14.0"
vgi-rpc = "=0.8.0"
