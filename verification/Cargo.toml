[package]
name = "mini-redis"
version = "0.1.0"
edition = "2021"
publish = false

[dependencies]
bytes = "1"
tokio = { version = "1", features = ["full"] }
clap = { version = "3", features = ["derive"] }
tracing = "0.1"
