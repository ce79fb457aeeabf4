[package]
name = "havi_core"
version = "0.1.0"
edition = "2021"
publish = false

[dependencies]
globset = "=0.4.21"
serde = { version = "=1.0.229", features = ["derive"] }
serde_json = "=1.0.154"
clap = { version = "=4.6.7", features = ["derive"] }
indicatif = "=0.17.11"
libc = "=0.2.191"
signal-hook = "=0.3.18"
napi = { version = "=3.16.1", features = ["tokio_rt", "napi4"] }
napi-derive = "=3.7.0"
cef = "*"
