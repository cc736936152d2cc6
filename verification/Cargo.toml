[package]
name = "loxmqttrelay"
version = "0.1.0"
edition = "2021"
publish = false

[dependencies]
regex = "1"
lru = "0.12"
serde = "1"
serde_json = "1"
serde_json_borrow = "*"
log = "0.4"
env_logger = "0.11"
pyo3 = { version = "0.23", features = ["abi3-py38"] }
pyo3-async-runtimes = { version = "0.23", features = ["tokio-runtime"] }
