[package]
name = "rusted"
version = "0.1.0"
edition = "2021"
publish = false

[dependencies]
regex = "1"
serde = { version = "1", features = ["derive"] }
serde_json = "1"
clap = "4"
once_cell = "1"
config = { version = "0.14", default-features = false, features = ["toml"] }
pyo3 = "0.22"
