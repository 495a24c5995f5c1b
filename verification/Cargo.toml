[package]
name = "feed"
version = "0.1.0"
edition = "2021"
publish = false

[dependencies]
aes-gcm = "0.10"
argon2 = "0.5"
base64 = "0.22"
getrandom = "0.3"
rusqlite = { version = "0.37", features = ["sqlcipher"] }
serde = { version = "1", features = ["derive"] }
serde_json = "1"
zeroize = "1"
