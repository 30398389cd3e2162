[package]
name = "resilience"
version = "0.1.0"
edition = "2021"
publish = false

[dependencies]
async-trait = "0.1"
atomic = "0.5"
rand = "0.8"
tokio = { version = "1", features = ["time", "rt", "macros"] }
tracing = "0.1"
