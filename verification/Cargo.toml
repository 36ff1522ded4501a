[package]
name = "chat_relay"
version = "0.1.0"
edition = "2021"
publish = false

[dependencies]
base64 = "0.22"
sha1 = "0.10"
serde = { version = "1", features = ["derive"] }
serde_json = "1"
tiny_http = "0.12"
