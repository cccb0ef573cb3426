[package]
name = "fallow_cli"
version = "0.1.0"
edition = "2021"
publish = false

[dependencies]
globset = "=0.4.21"
xxhash-rust = { version = "=0.8.19", features = ["xxh3"] }
serde = { version = "=1.0.229", features = ["derive"] }
serde_json = "=1.0.154"
json_comments = "0.2"
