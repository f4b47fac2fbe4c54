[package]
name = "cliptrim"
version = "0.1.0"
edition = "2021"
publish = false

[dependencies]
base64 = "*"
chrono = "*"
rusqlite = { version = "*", features = ["bundled"] }
serde = { version = "*", features = ["derive"] }
serde_json = "*"
tiny_http = "*"
urlencoding = "*"
uuid = { version = "*", features = ["v4"] }
