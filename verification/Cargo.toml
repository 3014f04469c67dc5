[package]
name = "nexora"
version = "0.1.0"
edition = "2021"
publish = false

[dependencies]
uuid = { version = "1", features = ["v4"] }
time = "0.3"
hmac = "0.12"
sha1 = "0.10"
sha2 = "0.10"
rand = "0.8"
hex = "0.4"
base64 = "0.22"
argon2 = "0.5"
zeroize = "1"
ed25519-dalek = { version = "2", features = ["rand_core"] }
rmp-serde = "1"
parking_lot = "0.12"
serde = { version = "1", features = ["derive"] }
serde_json = "1"
thiserror = "1"
