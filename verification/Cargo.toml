[package]
name = "repulse"
version = "0.1.0"
edition = "2021"
publish = false

[dependencies]
bytes = "*"
tokio = { version = "*", features = ["net", "io-util", "rt", "rt-multi-thread", "sync", "time", "fs", "macros"] }
tokio-util = { version = "*", features = ["codec"] }
futures = "*"
dirs = "*"
anyhow = "*"
