[package]
name = "zephyr_mcumgr"
version = "0.1.0"
edition = "2021"
publish = false

[dependencies]
chrono = { version = "=0.4.45", default-features = false }
ciborium = "=0.2.2"
indicatif = "=0.17.11"
miette = "=7.6.0"
pyo3 = { version = "=0.26.0", features = ["abi3-py39"] }
serde = { version = "=1.0.229", features = ["derive"] }
serde_bytes = "=0.11.19"
serde_json = "=1.0.154"
serde-pyobject = "*"
serialport = { version = "=4.10.1", default-features = false }
strum = "=0.26.3"
thiserror = "=2.0.21"

[dev-dependencies]
rand = "=0.9.5"
