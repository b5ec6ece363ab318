[package]
name = "smolgent"
version = "0.1.0"
edition = "2021"
publish = false

[dependencies]
async-stream = "*"
base64 = "*"
futures-channel = "*"
futures-util = "*"
keyring-core = "*"
linux-keyutils-keyring-store = "*"
proc-macro2 = "*"
pyo3 = "*"
pyo3-async-runtimes = { version = "*", features = ["tokio-runtime"] }
quote = "*"
reqwest = { version = "0.12", default-features = false, features = ["json", "rustls-tls", "stream"] }
schemars = "*"
serde = { version = "1", features = ["derive"] }
serde_json = "1"
syn = { version = "2", features = ["full"] }
thiserror = "*"
tokio = { version = "1", features = ["sync", "rt", "macros"] }
url = "2"
