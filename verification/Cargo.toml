[package]
name = "web_migration"
version = "0.1.0"
edition = "2021"
publish = false

[dependencies]
chrono = "0.4"
bytes = "1"
reqwest = { version = "0.11", default-features = false }
tokio = { version = "1", features = ["rt-multi-thread"] }
