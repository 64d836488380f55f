[package]
name = "rvps"
version = "0.1.0"
edition = "2021"
publish = false

[dependencies]
chrono = "=0.4.45"
redis = "=1.7.1"

[dev-dependencies]
serde_json = "=1.0.151"
