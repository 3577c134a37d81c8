[package]
name = "ai_application_factory"
version = "0.1.0"
edition = "2021"
publish = false

[dependencies]
url = "2"
hmac = "0.12"
sha2 = "0.10"
chrono = { version = "0.4", default-features = false, features = ["clock", "std"] }
serde_json = "1"
rusqlite = { version = "0.31", features = ["bundled"] }
reqwest = { version = "0.12", default-features = false, features = ["blocking", "json"] }
