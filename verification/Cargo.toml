[package]
name = "puddle_core"
version = "0.1.0"
edition = "2021"
publish = false

[dependencies]
clap = "=2.34.0"
env_logger = "=0.10.2"
log = "=0.4.34"
serde = { version = "=1.0.229", features = ["derive"] }
serde_json = "1"
