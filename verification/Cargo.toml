[package]
name = "granite-tools-api-demo"
version = "0.1.0"
edition = "2021"
publish = false

[dependencies]
serde = { version = "1", features = ["derive"] }
serde_json = "1"
walkdir = "2"
wry = "*"
tao = "*"
muda = "*"
rfd = { version = "*", default-features = false, features = ["gtk3"] }
