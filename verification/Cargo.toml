[package]
name = "mslm"
version = "1.0.0"
edition = "2021"
publish = false

[dependencies]
reqwest = { version = "*", default-features = false, features = ["blocking"] }
url = "*"

[dev-dependencies]
serde_json = "*"
percent-encoding = "*"
