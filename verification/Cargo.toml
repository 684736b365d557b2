[package]
name = "interchange"
version = "0.1.0"
edition = "2021"
publish = false

[dependencies]
arrow-array = "*"
arrow-buffer = "*"
arrow-cast = "*"
arrow-schema = "*"
redis = { version = "*", default-features = false, features = ["cluster"] }
rust_decimal = "*"
serde_json = "*"
