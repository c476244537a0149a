[package]
name = "ml_metadata"
version = "0.1.0"
edition = "2021"
publish = false

[dependencies]
axum = "*"
tokio = { version = "*", features = ["rt-multi-thread", "macros"] }
tower-http = { version = "*", features = ["cors"] }
