[package]
name = "learning_rust"
version = "0.1.0"
edition = "2021"
publish = false

[dependencies]
anyhow = "1"
bytes = "1"
futures = "0.3"
indicatif = "0.17"
reqwest = { version = "0.12", features = ["stream"] }
tokio = { version = "1", features = ["full"] }
