[package]
name = "musicgpt"
version = "0.1.0"
edition = "2021"
publish = false

[dependencies]
rand = "0.8"
hound = "3"

[dev-dependencies]
uuid = { version = "1", features = ["v4"] }
