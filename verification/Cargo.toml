[package]
name = "azure_attest"
version = "0.1.0"
edition = "2021"
publish = false

[dependencies]
serde = { version = "*", features = ["derive"] }
serde_json = "*"
http_req = "*"

[dev-dependencies]
hex = "*"
