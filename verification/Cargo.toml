[package]
name = "api_request"
version = "0.1.0"
edition = "2021"
publish = false

[dependencies]
base64 = "0.13"
futures = "0.1"
hyper = { version = "0.12", default-features = false }
serde = "1"
serde_json = "1"
url = "1.7"
