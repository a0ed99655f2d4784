[package]
name = "plumai"
version = "0.1.0"
edition = "2021"
publish = false

[dependencies]
slug = "*"
base64 = "*"
zip = { version = "*", default-features = false, features = ["deflate"] }
uuid = { version = "*", features = ["v4"] }
chrono = "*"
serde = { version = "*", features = ["derive"] }
serde_json = "*"
dirs = "*"
