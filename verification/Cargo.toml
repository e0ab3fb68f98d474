[package]
name = "stream_resolver"
version = "0.1.0"
edition = "2021"
publish = false

[dependencies]
regex = "1"
url = "2"
urlencoding = "2"
serde_qs = "0.12"
serde_json = "1"
serde = { version = "1", features = ["derive"] }
js-sandbox = "0.1"
reqwest = "0.11"
derive_more = { version = "1", features = ["display"] }
derivative = "2"
