[package]
name = "tokio_actors"
version = "0.1.0"
edition = "2021"
publish = false

[dependencies]
dashmap = "6"
futures-core = "0.3"
thiserror = "1"
tokio = { version = "1", features = ["rt", "rt-multi-thread", "sync", "time", "macros"] }
tokio-stream = "0.1"
tokio-util = "0.7"
tracing = "0.1"
uuid = { version = "1", features = ["v4"] }
