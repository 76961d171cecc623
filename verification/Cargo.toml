[package]
name = "xuper_rust_sdk"
version = "0.1.0"
edition = "2021"
publish = false

[dependencies]
base64 = "0.13"
serde = { version = "1", features = ["derive"] }
serde_json = "1"
serde_yaml = "0.8"
num-bigint = "0.4"
num-traits = "0.2"
hex = "0.4"
rand = "0.8"
rand_core = "0.6"
