[package]
name = "fooocus_plugin"
version = "0.1.0"
edition = "2021"
publish = false

[dependencies]
async-openai = "0.17"
nacos-sdk = "0.3"
named-lock = "0.4"
pyo3 = { version = "0.20", features = ["abi3-py38"] }
rand = "0.8"
reqwest = { version = "0.11", default-features = false }
serde = { version = "1", features = ["derive"] }
serde_json = "1"
tokio = { version = "1", features = ["rt", "net", "time"] }
toml = "0.8"
tracing = "0.1"
tracing-subscriber = "0.3"
ureq = { version = "2", features = ["json"] }
