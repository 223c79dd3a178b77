[package]
name = "persway"
version = "0.1.0"
edition = "2021"
publish = false

[dependencies]
anyhow = "*"
async-std = { version = "*", features = ["attributes"] }
clap = { version = "*", features = ["derive"] }
env_logger = "*"
futures = "*"
log = "*"
signal-hook = "*"
signal-hook-async-std = "*"
swayipc-async = "*"
