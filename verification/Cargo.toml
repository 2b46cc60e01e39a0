[package]
name = "workflowengine"
version = "0.1.0"
edition = "2021"
publish = false

[dependencies]
chrono = "*"
clap = { version = "*", features = ["derive"] }
env_logger = "*"
log = "*"

[dev-dependencies]
serde_json = "*"
