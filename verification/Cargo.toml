[package]
name = "astra_optimizer"
version = "0.1.0"
edition = "2021"
publish = false

[dependencies]
hdf5-metno = "=0.15.1"
serde_json = { version = "=1.0.154", features = ["float_roundtrip"] }
