[package]
name = "rustyfin"
version = "0.1.0"
edition = "2021"
publish = false

[dependencies]
pyo3 = { version = "0.22", features = ["extension-module", "abi3-py39"] }
statrs = "0.18"

[dev-dependencies]
approx = "0.5"
