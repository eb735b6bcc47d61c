[package]
name = "mat"
version = "0.1.0"
edition = "2021"
publish = false

[dependencies]
serde_json = "1"
async-trait = "0.1"
clap = { version = "4", features = ["derive", "env"] }
tokio = { version = "1", features = ["rt", "time", "sync", "macros"] }
tracing = "0.1"
tracing-subscriber = { version = "0.3", features = ["env-filter"] }
