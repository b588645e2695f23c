[package]
name = "nexoravm"
version = "0.1.0"
edition = "2021"
publish = false

[dependencies]
serde = { version = "=1.0.229", features = ["derive"] }
serde_json = "=1.0.154"
uuid = { version = "=1.29.1", features = ["v4"] }
getrandom = "=0.4.3"
tauri = { version = "=2.12.5", default-features = false }
