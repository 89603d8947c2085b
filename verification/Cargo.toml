[package]
name = "mcscan"
version = "0.1.0"
edition = "2021"
publish = false

[dependencies]
flate2 = "1"
serde = { version = "1", features = ["derive"] }
serde_json = "1"
tokio = { version = "1", features = ["rt-multi-thread", "net", "time", "sync", "io-util", "fs", "macros"] }
anyhow = "1"
indicatif = "*"
