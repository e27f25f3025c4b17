[package]
name = "log_setup"
version = "0.1.0"
edition = "2021"
publish = false

[dependencies]
chrono = "0.4"
tracing = "0.1"
tracing-subscriber = { version = "0.3", features = ["env-filter", "json"] }
