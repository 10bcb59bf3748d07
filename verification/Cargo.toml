[package]
name = "ccmate"
version = "0.1.0"
edition = "2021"
publish = false

[dependencies]
nanoid = "*"
uuid = { version = "*", features = ["v4"] }
chrono = "*"
serde = { version = "*", features = ["derive"] }
serde_json = "*"
dirs = "*"
