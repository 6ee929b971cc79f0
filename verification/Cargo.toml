[package]
name = "keepkey_vault"
version = "0.1.0"
edition = "2021"
publish = false

[dependencies]
hex = "0.4"
semver = "1"
uuid = { version = "1", features = ["v4"] }
chrono = "0.4"
