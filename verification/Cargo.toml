[package]
name = "throughput"
version = "0.1.0"
edition = "2021"
publish = false

[dependencies]
anyhow = "1"
async-std = { version = "1", features = ["attributes"] }
env_logger = "*"
tide = "0.16"
