[package]
name = "lokai_engine"
version = "0.1.0"
edition = "2021"
publish = false

[dependencies]
base64 = "=0.22.1"
ed25519-dalek = "=2.2.0"
globset = "0.4"
hmac = "=0.12.1"
ignore = "=0.4.34"
rand = "=0.8.8"
regex = "1"
schemars = "=0.8.22"
serde = { version = "=1.0.229", features = ["derive"] }
serde_json = "=1.0.154"
sha2 = "=0.10.9"
subtle = "=2.6.1"
thiserror = "=1.0.69"
