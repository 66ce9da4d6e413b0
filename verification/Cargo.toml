[package]
name = "keter_test"
version = "0.1.0"
edition = "2021"
publish = false

[dependencies]
async-process = "*"
async-io = "*"
futures-lite = "*"
async-net = "*"
serde = { version = "*", features = ["derive"] }
serde_json = "*"
