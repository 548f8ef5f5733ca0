[package]
name = "lito_kernel"
version = "0.1.0"
edition = "2021"
publish = false

[dependencies]
uuid = { version = "*", features = ["v4"] }
portable-pty = "*"
tokio = { version = "*", features = ["rt-multi-thread", "macros", "sync", "time"] }
tracing = "*"
tracing-subscriber = "*"
