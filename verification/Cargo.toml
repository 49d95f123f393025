[package]
name = "leadswarm_native"
version = "0.1.0"
edition = "2021"
publish = false

[dependencies]
xxhash-rust = { version = "*", features = ["xxh3"] }
scraper = "*"
pyo3 = "*"

[dev-dependencies]
csv = "*"
serde_json = "*"
