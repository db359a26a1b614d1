[package]
name = "poll_cache"
version = "0.1.0"
edition = "2021"
publish = false

[dependencies]
futures = "0.1"
tokio = "0.1"
tokio-codec = "0.1"
