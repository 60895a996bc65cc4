[package]
name = "json_to_csv"
version = "0.1.0"
edition = "2021"
publish = false

[dependencies]
anyhow = "1"
csv = "1"
serde_json = { version = "1", features = ["preserve_order"] }
