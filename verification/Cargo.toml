[package]
name = "mimo_auth"
version = "0.1.0"
edition = "2021"
publish = false

[dependencies]
jsonwebtoken = "9"
argon2 = "0.5"
rand = "0.8"
uuid = { version = "1", features = ["v4"] }
chrono = "0.4"
lettre = { version = "0.11", default-features = false, features = ["smtp-transport", "builder"] }
serde = { version = "1", features = ["derive"] }
toml = "0.8"
