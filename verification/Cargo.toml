[package]
name = "fuzzle"
version = "0.1.0"
edition = "2021"
publish = false

[dependencies]
emojis = "=0.6.4"
regex = "=1.13.1"
rand = "=0.8.8"
serde = { version = "=1.0.229", features = ["derive"] }
serde_json = "=1.0.154"
url = "2"
