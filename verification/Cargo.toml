[package]
name = "post_store"
version = "0.1.0"
edition = "2021"
publish = false

[dependencies]
uuid = { version = "1", features = ["v4"] }
chrono = "0.4"
iron = "0.6"
router = "0.6"
logger = "0.4"
env_logger = "0.10"
