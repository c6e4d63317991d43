[package]
name = "proto_balancer"
version = "0.1.0"
edition = "2021"
publish = false

[dependencies]
serde_json = "1"
toml = "0.8"
chrono = { version = "0.4", default-features = false, features = ["clock", "std"] }
tokio = { version = "1", features = ["full"] }
hyper = { version = "1", features = ["full"] }
hyper-util = { version = "0.1", features = ["full"] }
http-body-util = "0.1"
reqwest = { version = "0.12", default-features = false, features = ["json"] }
tokio-tungstenite = "0.21"
futures-util = "0.3"
tokio-stream = "0.1"
clap = "4"
env_logger = "0.11"
log = "0.4"
lazy_static = "1"
