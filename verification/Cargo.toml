[package]
name = "visitstore"
version = "0.1.0"
edition = "2021"
publish = false

[dependencies]
chrono = { version = "0.4", default-features = false }
serde = { version = "1", features = ["derive"] }
serde_json = "1"
zip = { version = "*", default-features = false, features = ["deflate"] }
