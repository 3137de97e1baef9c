[package]
name = "rustbolt"
version = "0.1.0"
edition = "2021"
publish = false

[dependencies]
env_logger = "*"
refinery = { version = "*", features = ["rusqlite"] }
rusqlite = "*"
tokio = { version = "*", features = ["io-util", "macros", "net", "rt-multi-thread"] }
