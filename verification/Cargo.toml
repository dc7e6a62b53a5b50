[package]
name = "ambientor"
version = "0.1.0"
edition = "2021"
publish = false

[dependencies]
serde = { version = "=1.0.229", features = ["derive"] }
serde_json = "=1.0.154"
serde_yaml = "=0.9.34"
urlencoding = "=2.1.3"
chrono = { version = "=0.4.45", default-features = false, features = ["clock", "std"] }
uuid = { version = "=1.29.0", features = ["v4"] }
argon2 = "=0.5.3"
password-hash = { version = "=0.5.0", features = ["getrandom"] }
url = "2"
