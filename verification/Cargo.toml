[package]
name = "cps"
version = "0.7.0"
edition = "2021"
publish = false

[dependencies]
clap = { version = "4", features = ["derive"] }
pyo3 = "0.24"
serde = { version = "1", features = ["derive"] }
toml = "0.8"
