[package]
name = "chat_groups"
version = "0.1.0"
edition = "2021"
publish = false

[dependencies]
tokio = { version = "1", default-features = false, features = ["sync"] }
async-std = { version = "1", features = ["unstable"] }
