[package]
name = "enzin"
version = "0.1.0"
edition = "2021"
publish = false

[dependencies]
tantivy = "0.22"
serde = { version = "1", features = ["derive"] }
serde_json = "1"
axum = "0.7"
tokio = { version = "1", features = ["full"] }
chrono = "0.4"

[dev-dependencies]
tempfile = "3"
