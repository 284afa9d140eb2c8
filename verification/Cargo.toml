[package]
name = "json_sum"
version = "0.1.0"
edition = "2021"
publish = false

[dependencies]
simd-json = "=0.18.1"
pyo3 = { version = "=0.20.3", features = ["extension-module"] }
