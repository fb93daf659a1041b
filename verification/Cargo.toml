[package]
name = "netlab"
version = "0.1.0"
edition = "2021"
publish = false

[dependencies]
mini-redis = "0.4"
bytes = "1"
tokio = { version = "1", features = ["full"] }
tower = { version = "0.5", features = ["util"] }
hyper = { version = "1", features = ["server", "http1"] }
hyper-util = { version = "0.1", features = ["tokio", "service", "server"] }
http-body-util = "0.1"
futures = "0.3"
pin-project = "1"
log = "0.4"
env_logger = "0.11"
anyhow = "1"
serde = "1"
