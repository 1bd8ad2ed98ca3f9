[package]
name = "lox_kvn"
version = "0.1.0"
edition = "2021"
publish = false

[dependencies]
fast-float = "0.2"
pyo3 = "0.23"

[dev-dependencies]
regex = "1"
