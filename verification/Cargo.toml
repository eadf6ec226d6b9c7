[package]
name = "firmware_core"
version = "0.1.0"
edition = "2021"
publish = false

[dependencies]
twoway = "*"
url = "*"
serde = { version = "1", features = ["derive"] }
serde_json = "1"
