[package]
name = "codex_xray"
version = "0.1.0"
edition = "2021"
publish = false

[dependencies]
serde = { version = "=1.0.229", features = ["derive"] }
serde_json = "=1.0.154"
chrono = "=0.4.45"
url = "=2.5.8"
keyring = { version = "=3.6.3", features = ["apple-native", "windows-native", "linux-native"] }
memchr = "=2.8.3"
base64 = "=0.22.1"
thiserror = "=2.0.21"
rusqlite = { version = "=0.32.1", features = ["bundled"] }
