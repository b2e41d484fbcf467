[package]
name = "zero2prod"
version = "0.1.0"
edition = "2021"
publish = false

[dependencies]
anyhow = "*"
base64 = "*"
chrono = "*"
config = "*"
hmac = "*"
regex = "*"
secrecy = "*"
serde = { version = "*", features = ["derive"] }
serde_json = "*"
sha2 = "*"
unicode-segmentation = "*"
url = "*"
uuid = "*"
