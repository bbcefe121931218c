[package]
name = "abuse_limiter"
version = "0.1.0"
edition = "2021"
publish = false

[dependencies]
axum = "0.7"
chrono = "0.4"
fred = "9"
serde_json = "1"
