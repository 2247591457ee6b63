[package]
name = "wtftoday"
version = "0.1.0"
edition = "2021"
publish = false

[dependencies]
chrono = "0.4"
ical = "0.11"
urlencoding = "2"
serde = { version = "1", features = ["derive"] }
serde_json = "1"
rusqlite = { version = "*", features = ["bundled"] }
reqwest = { version = "0.12", features = ["json"] }
tokio = { version = "1", features = ["macros", "rt-multi-thread"] }
keyring = "3"
log = "0.4"
