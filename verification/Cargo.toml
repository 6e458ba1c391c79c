[package]
name = "thrash"
version = "0.1.0"
edition = "2021"
publish = false

[dependencies]
serde = { version = "1", features = ["derive"] }
serde_json = "1"
url = "2"
rayon = "1"
reqwest = { version = "0.12", default-features = false, features = ["blocking", "json"] }
