[package]
name = "cpa-interactions-provider"
version = "0.1.0"
edition = "2021"
publish = false

[dependencies]
base64 = "0.22"
blake3 = { version = "1", features = ["pure"] }
serde_json = "1"
