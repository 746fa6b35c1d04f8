[package]
name = "webxtism"
version = "0.1.0"
edition = "2021"
publish = false

[dependencies]
dashmap = "=6.2.1"
extism-convert = "=1.41.0"
extism-manifest = "=1.41.0"
futures-util = "0.3"
reqwest = { version = "=0.12.28", default-features = false, features = ["rustls-tls"] }
serde_json = "1"
thiserror = "2"
tokio = { version = "1", features = ["fs", "rt"] }
tracing = "=0.1.44"
typed-builder = "0.20"
wasmer = "=6.1.0"
wasmer-types = "=6.1.0"
