[package]
name = "fun_together"
version = "0.1.0"
edition = "2021"
publish = false

[dependencies]
rand = "0.8"
tokio = { version = "1", features = ["full"] }
hyper = { version = "0.14", features = ["full"] }
tokio-tungstenite = "0.20"
futures = "0.3"
futures-util = "0.3"
serde = { version = "1", features = ["derive"] }
serde_json = "1"
ciborium = "0.2"
parking_lot = "0.12"
once_cell = "1"
log = "0.4"
env_logger = "0.10"
