[package]
name = "observability"
version = "0.1.0"
edition = "2021"
publish = false

[dependencies]
tokio = { version = "*", features = ["macros", "rt-multi-thread", "net"] }
axum = "*"
tracing = "*"
tracing-subscriber = "*"
