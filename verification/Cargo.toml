[package]
name = "firaw_ssh"
version = "0.1.2"
edition = "2021"
publish = false

[dependencies]
aes-gcm = "0.10"
argon2 = "0.5"
base64 = "0.22"
sha2 = "0.10"
uuid = { version = "1", features = ["v4"] }
serde = { version = "1", features = ["derive"] }
serde_json = "1"
ssh2 = "0.9"
keyring = "3"
interprocess = "2"
