[package]
name = "concordium_schema_decoder"
version = "0.1.0"
edition = "2021"
publish = false

[dependencies]
base64 = "*"
concordium-contracts-common = "*"
