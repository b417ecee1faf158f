[package]
name = "koppeln"
version = "0.1.0"
edition = "2021"
publish = false

[dependencies]
bytes = "=1.12.1"
tokio = { version = "=1.53.2", features = ["full"] }
tokio-util = { version = "=0.7.19", features = ["codec", "net"] }
futures = "=0.3.34"
warp = { version = "=0.4.3", features = ["server"] }
serde = { version = "=1.0.229", features = ["derive"] }
toml = "=1.1.7"
log = "=0.4.34"
env_logger = "=0.11.11"
