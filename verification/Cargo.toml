[package]
name = "sabi"
version = "0.1.0"
edition = "2021"
publish = false

[dependencies]
sha2 = "*"
hmac = "*"
chrono = "*"
toml = "*"
