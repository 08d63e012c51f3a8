[package]
name = "holter-bridge"
version = "0.1.0"
edition = "2021"
publish = false

[dependencies]
env_logger = "0.7"
futures = "0.3"
log = "0.4"
serde = { version = "1", features = ["derive"] }
serde_json = "1"
thiserror = "1"
tokio = { version = "0.2", features = ["full"] }
warp = "0.2"
