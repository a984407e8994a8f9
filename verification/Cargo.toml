[package]
name = "ai_ask"
version = "0.1.0"
edition = "2021"
publish = false

[dependencies]
arboard = "3"
semver = "1"
log = "0.4"
serde = { version = "1", features = ["derive"] }
serde_json = "1"
reqwest = { version = "0.12", default-features = false, features = ["blocking", "json"] }
time = { version = "0.3", features = ["formatting"] }
url = "2"
