[package]
name = "notebooklm_mcp"
version = "0.1.0"
edition = "2021"
publish = false

[dependencies]
url = "=2.5.8"
regex = "=1.13.1"
html-escape = "=0.2.15"
serde = { version = "=1.0.229", features = ["derive"] }
serde_json = "=1.0.154"
tokio = { version = "=1.54.1", features = ["full"] }
reqwest = { version = "=0.12.28", default-features = false, features = ["json", "rustls-tls", "cookies", "stream"] }
clap = { version = "=4.6.7", features = ["derive"] }
rand = "=0.8.8"
uuid = { version = "=1.29.0", features = ["v4"] }
tracing = "=0.1.44"
tracing-subscriber = "=0.3.23"
governor = "=0.6.3"
dirs = "=5.0.1"
keyring = "=3.6.3"
rmcp = { version = "=3.8.0", features = ["server", "macros", "transport-io"] }
schemars = "=1.2.3"
tempfile = "=3.27.0"
futures-util = "=0.3.34"
tokio-util = { version = "=0.7.20", features = ["io"] }
headless_chrome = { version = "=0.9.0", default-features = false }
