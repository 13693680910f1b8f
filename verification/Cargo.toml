[package]
name = "openshell-apple-container"
version = "0.1.0"
edition = "2021"
publish = false

[dependencies]
futures = "0.3"
miette = "7"
serde = { version = "1", features = ["derive"] }
serde_json = "1"
thiserror = "2"
tokio = { version = "1", features = ["fs", "macros", "process", "rt", "sync", "time"] }
tokio-stream = "0.1"
tonic = { version = "*", default-features = false }
tracing = "0.1"
