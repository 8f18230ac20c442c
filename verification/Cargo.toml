[package]
name = "telemetry_gateway"
version = "0.1.0"
edition = "2021"
publish = false

[dependencies]
sha2 = "0.10"
rsa = "0.9"

[dev-dependencies]
rand = "0.8"
