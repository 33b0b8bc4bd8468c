[package]
name = "context_pilot"
version = "0.1.0"
edition = "2021"
publish = false

[dependencies]
sha2 = "=0.11.1"
serde = { version = "=1.0.229", features = ["derive"] }
serde_json = "=1.0.154"
rusqlite = "=0.41.1"
reqwest = { version = "=0.13.5", default-features = false, features = ["blocking"] }
notify = "=8.2.1"
unicode-width = "0.2"
