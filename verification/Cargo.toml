[package]
name = "rowscan"
version = "0.1.0"
edition = "2021"
publish = false

[dependencies]
polars = { version = "*", default-features = false }
polars-arrow = { version = "*", default-features = false }
pyo3 = { version = "*", features = ["abi3-py39"] }
pyo3-polars = { version = "*", features = ["derive"] }
serde = { version = "*", features = ["derive"] }
smallvec = "*"
