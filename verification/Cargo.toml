[package]
name = "relay_auth"
version = "0.1.0"
edition = "2021"
publish = false

[dependencies]
argon2 = "0.5"
cookie = { version = "0.18", features = ["private"] }
rand = "0.8"
