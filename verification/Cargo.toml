[package]
name = "slack_relay"
version = "0.1.0"
edition = "2021"
publish = false

[dependencies]
hex = "*"
hmac = "*"
serde_json = "*"
sha2 = "*"
