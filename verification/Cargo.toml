[package]
name = "undermoon"
version = "0.1.0"
edition = "2021"
publish = false

[dependencies]
futures = "0.3"
futures-batch = "*"
pin-project = "1"
log = "0.4"
env_logger = "*"
config = { version = "*", default-features = false, features = ["toml"] }
tokio = { version = "1", features = ["rt-multi-thread", "time"] }
