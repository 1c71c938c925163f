[package]
name = "tokenizer_components"
version = "0.1.0"
edition = "2021"
publish = false

[dependencies]
tokenizers = { version = "=0.11.3", default-features = false }
serde = { version = "=1.0.229", features = ["derive"] }
serde_json = { version = "=1.0.154", features = ["raw_value"] }
neon = "=1.1.2"
pyo3 = "=0.30.1"
