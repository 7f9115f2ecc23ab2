[package]
name = "wireproto"
version = "0.1.0"
edition = "2021"
publish = false

[dependencies]
aes = "*"
flate2 = "*"
simdnbt = "*"
serde = { version = "*", features = ["derive"] }
serde_json = "*"
thiserror = "*"
