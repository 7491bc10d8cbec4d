[package]
name = "token_provider"
version = "0.1.0"
edition = "2021"
publish = false

[dependencies]
aes-gcm = "0.10"
base64 = "0.22"
serde_json = "1"
serde = { version = "1", features = ["derive"] }
dirs = "*"
rpassword = "*"
self-replace = "*"
thiserror = "*"
