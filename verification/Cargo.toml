[package]
name = "tproxy"
version = "0.1.0"
edition = "2021"
publish = false

[dependencies]
anyhow = "1"
serde_yaml_ng = "0.10"
tokio = { version = "1", features = ["fs", "time"] }
