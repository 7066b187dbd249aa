[package]
name = "kap16"
version = "0.1.0"
edition = "2021"
publish = false

[dependencies]
regex = "1"
clap = { version = "3.2", features = ["derive"] }
colored = "2"
env_logger = "0.10"
log = "0.4"
