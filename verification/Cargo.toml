[package]
name = "authpool"
version = "0.1.0"
edition = "2021"
publish = false

[dependencies]
argon2 = "=0.5.3"
base64 = "=0.22.1"
password-hash = { version = "=0.5.0", features = ["getrandom"] }
serde_json = "=1.0.151"
sqlite = "=0.36.2"
