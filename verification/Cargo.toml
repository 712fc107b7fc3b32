[package]
name = "laberbox"
version = "0.1.0"
edition = "2021"
publish = false

[dependencies]
anyhow = "=1.0.104"
bytes = "=1.12.1"
env_logger = "=0.11.11"
http-body-util = "=0.1.5"
hyper = { version = "=1.12.0", features = ["server", "http1", "http2"] }
hyper-util = { version = "=0.1.21", features = ["server-auto", "tokio", "service"] }
log = "=0.4.35"
octocrab = "=0.47.1"
rand = "=0.10.3"
serde = { version = "=1.0.229", features = ["derive"] }
serde_json = "=1.0.154"
serde_yaml = "=0.9.34"
tokio = { version = "=1.54.1", features = ["full"] }
tower = { version = "=0.5.3", features = ["buffer", "limit", "util"] }
