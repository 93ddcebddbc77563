[package]
name = "cordial-runtime"
version = "0.1.0"
edition = "2021"
publish = false

[dependencies]
serde_json = { version = "=1.0.154", features = ["float_roundtrip"] }
zbus = "=5.19.0"
