[package]
name = "credential_store"
version = "0.1.0"
edition = "2021"

[dependencies]
pbkdf2 = { version = "0.12", features = ["simple"] }
rand_core = { version = "0.6", features = ["std"] }
uuid = { version = "1", features = ["v4"] }
