[package]
name = "workspace_orchestrator"
version = "0.1.0"
edition = "2021"
publish = false

[dependencies]
regex = "1"
thiserror = "2"
tokio = { version = "1", features = ["fs", "rt"] }
tracing = "0.1"
urlencoding = "2"
uuid = { version = "1", features = ["v4"] }
