[package]
name = "tmatebot"
version = "0.1.0"
edition = "2021"
publish = false

[dependencies]
circular-buffer = "=1.2.1"
tokio = { version = "=1.53.2", features = ["process", "io-util", "net", "sync", "time", "rt-multi-thread", "macros"] }
