[package]
name = "tmsign"
version = "0.1.0"
edition = "2021"
publish = false

[dependencies]
bytes = "=1.12.1"
signatory = { version = "=0.27.1", features = ["ed25519"] }

[dev-dependencies]
prost = "=0.14.4"
