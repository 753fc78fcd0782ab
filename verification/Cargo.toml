[package]
name = "open_sonar"
version = "0.1.0"
edition = "2021"
publish = false

[dependencies]
serde = { version = "*", features = ["derive"] }
serde_json = "*"
rusqlite = { version = "=0.40.2", features = ["bundled", "fallible_uint"] }
chrono = "*"
notify = "*"
dirs = "*"
portable-pty = "*"
