[package]
name = "gha"
version = "0.1.0"
edition = "2021"
publish = false

[dependencies]
rppal = "=0.22.1"
tokio = { version = "=1.53.2", features = ["rt-multi-thread", "macros", "sync", "time"] }
warp = { version = "=0.4.3", features = ["server"] }
serde = { version = "=1.0.229", features = ["derive"] }
serde_json = "=1.0.151"
serde_yaml = "=0.9.34+deprecated"
serde_merge = "=0.1.3"
prometheus = "=0.14.0"
log = "=0.4.34"
env_logger = "=0.11.11"
