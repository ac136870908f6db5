[package]
name = "fileshare"
version = "0.1.0"
edition = "2021"
publish = false

[dependencies]
qrcode-generator = "*"
actix-web = "4"
actix-multipart = "*"
futures-util = "*"
if-addrs = "*"
env_logger = "*"
serde = { version = "*", features = ["derive"] }
serde_json = "*"
