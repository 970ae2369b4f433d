[package]
name = "portal"
version = "0.1.0"
edition = "2021"
publish = false

[dependencies]
rand = "0.8"
serde = { version = "1", features = ["derive"] }
serde_json = "1"
chrono = "0.4"
reqwest = { version = "0.12", default-features = false, features = ["blocking", "json"] }
rusqlite = { version = "0.31", features = ["bundled"] }
socket2 = "0.5"
if-addrs = "0.13"
dotenv = "0.15"
rppal = "0.18"
ina219 = "*"
i2c-character-display = "*"
