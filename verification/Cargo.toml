[package]
name = "playground_sandbox"
version = "0.1.0"
edition = "2021"
publish = false

[dependencies]
serde = { version = "1", features = ["derive"] }
serde_json = "1"
tempdir = "0.3"
tokio = { version = "1", features = ["process", "time", "rt", "io-util"] }
