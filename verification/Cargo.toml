[package]
name = "rvecsim"
version = "0.1.0"
edition = "2021"
publish = false

[dependencies]
ndarray = "0.16"
num-complex = "0.4"
rand = "0.8"
rayon = "1"
pyo3 = { version = "0.22", features = ["num-complex"] }
