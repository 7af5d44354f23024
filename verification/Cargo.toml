[package]
name = "steersman_core"
version = "0.1.0"
edition = "2021"
publish = false

[dependencies]
serde = { version = "=1.0.229", features = ["derive"] }
serde_json = "=1.0.154"
sha2 = "=0.10.9"
hex = "=0.4.3"
regex = "=1.13.1"
base64 = "=0.22.1"
uuid = { version = "=1.29.0", features = ["v4"] }
chrono = "=0.4.45"
yaml-rust2 = "=0.13.0"
dirs = "=7.0.0"
aes-gcm = "0.10"
keyring = "3"
rusqlite = { version = "0.32", features = ["bundled"] }
