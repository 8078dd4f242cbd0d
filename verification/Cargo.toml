[package]
name = "smq_lib"
version = "0.1.0"
edition = "2021"
publish = false

[dependencies]
bytes = "1"
uuid = { version = "1", features = ["v4"] }
log = "0.4"
env_logger = "0.11"
ctrlc = "3"
