[package]
name = "middleware_chain"
version = "0.1.0"
edition = "2021"
publish = false

[dependencies]
uuid = { version = "1", features = ["v4"] }
slog = "2"
slog-async = "2"
slog-term = "2"
