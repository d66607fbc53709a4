[package]
name = "typesafe"
version = "0.1.0"
edition = "2021"
publish = false

[dependencies]
serde = { version = "1", features = ["derive"] }
serde_json = "1"
reqwest = { version = "0.12", default-features = false, features = ["rustls-tls"] }
tokio = { version = "1", features = ["time", "macros", "rt-multi-thread"] }
tracing = "0.1"
thiserror = "2"
