[package]
name = "sodium_launcher"
version = "0.1.0"
edition = "2021"
publish = false

[dependencies]
dirs = "=7.0.0"
reqwest = { version = "=0.12.28", features = ["json"] }
serde = { version = "=1.0.229", features = ["derive"] }
serde_json = "=1.0.154"
url = "=2.5.8"
urlencoding = "=2.1.3"
zip = { version = "=9.2.2", default-features = false, features = ["deflate"] }
