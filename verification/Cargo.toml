[package]
name = "bosminer_antminer"
version = "0.1.0"
edition = "2021"
publish = false

[dependencies]
url = "2"
futures = "0.3"
tokio = { version = "1", features = ["sync", "time", "rt", "macros"] }
