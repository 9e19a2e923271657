[package]
name = "pyinpoly"
version = "0.1.0"
edition = "2021"
publish = false

[dependencies]
ndarray = "0.15"
numpy = "0.13"
pyo3 = { version = "0.13", features = ["extension-module"] }
