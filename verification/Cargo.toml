[package]
name = "libfoot"
version = "0.1.0"
edition = "2021"
publish = false

[dependencies]
once_cell = "1"
pyo3 = { version = "*", features = ["extension-module"] }
reqwest = { version = "*", features = ["blocking", "json"] }
serde = { version = "1", features = ["derive"] }
tempfile = "3"
zip = { version = "*", default-features = false, features = ["deflate"] }
