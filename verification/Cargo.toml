[package]
name = "opencli"
version = "0.1.0"
edition = "2021"
publish = false

[dependencies]
url = "=2.5.8"
urlencoding = "=2.1.3"
uuid = { version = "=1.29.0", features = ["v4"] }
semver = "=1.0.28"
serde = { version = "=1.0.229", features = ["derive"] }
serde_json = "=1.0.154"
serde_yaml = "=0.9.34"
base64 = "0.22"
