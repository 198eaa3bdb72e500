[package]
name = "simu_backend"
version = "0.1.0"
edition = "2021"
publish = false

[dependencies]
sha2 = "=0.10.9"
hex = "=0.4.3"
base64 = "=0.22.1"
subtle = "=2.6.1"
totp-rs = { version = "=5.7.2", features = ["otpauth", "gen_secret"] }
uuid = { version = "=1.29.0", features = ["v4", "v7"] }
argon2 = { version = "=0.5.3", features = ["std"] }
validator = "=0.20.0"
chrono = "=0.4.45"
serde = { version = "=1.0.229", features = ["derive"] }
serde_json = "=1.0.154"
rand = "=0.9.5"
regex = "=1.13.1"
zip = { version = "=2.6.1", default-features = false, features = ["deflate"] }
image = { version = "=0.25.10", default-features = false, features = ["jpeg", "png", "gif", "webp"] }
url = "=2.5.8"
