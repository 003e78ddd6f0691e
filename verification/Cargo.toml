[package]
name = "wows_replays"
version = "0.1.0"
edition = "2021"
publish = false

[dependencies]
roxmltree = "=0.20.0"
flate2 = "=1.1.10"
rust-crypto = "=0.2.36"
serde-pickle = "=1.2.0"
serde = { version = "=1.0.229", features = ["derive"] }
serde_json = "=1.0.154"
parse_int = "*"
