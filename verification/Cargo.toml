[package]
name = "echonet"
version = "0.1.0"
edition = "2021"
publish = false

[dependencies]
anyhow = "1"
bytes = "1"
env_logger = "0.11"
log = "0.4"
tokio = { version = "1", features = ["macros", "net", "rt-multi-thread", "time"] }
