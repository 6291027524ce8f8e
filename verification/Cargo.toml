[package]
name = "status_blocks"
version = "0.1.0"
edition = "2021"
publish = false

[dependencies]
chrono = { version = "0.4", features = ["unstable-locales"] }
chrono-tz = "*"
crossbeam-channel = "0.5"
serde = { version = "1", features = ["derive"] }
serde_derive = "1"
serde_json = "1"
uuid = { version = "0.8", features = ["v4"] }
