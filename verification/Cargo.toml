[package]
name = "xiv_csolver_lib"
version = "0.1.0"
edition = "2021"
publish = false

[dependencies]
clap = { version = "4", features = ["derive"] }
lazy_static = "1"
pyo3 = { version = "0.20", features = ["extension-module", "abi3-py37"] }
threadpool = "1"
toml = "0.8"
