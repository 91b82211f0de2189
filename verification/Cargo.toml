[package]
name = "linera_toolkit"
version = "0.1.0"
edition = "2021"
publish = false

[dependencies]
anyhow = "=1.0.104"
async-trait = "=0.1.92"
bcs = "=0.1.6"
clap = { version = "=4.6.7", features = ["derive", "env"] }
fs-err = { version = "=2.11.0", features = ["tokio"] }
futures = "=0.3.34"
hdrhistogram = { version = "=7.6.0", default-features = false }
num-format = "=0.4.4"
prometheus-parse = "=0.2.5"
reqwest = { version = "=0.12.28", default-features = false }
serde = { version = "=1.0.229", features = ["derive"] }
serde_json = "=1.0.154"
thiserror = "=1.0.69"
tokio = { version = "=1.54.1", features = ["macros", "rt-multi-thread", "signal", "sync", "time"] }
tokio-stream = "=0.1.19"
tokio-util = "=0.7.20"
toml = "=0.8.23"
tracing = "=0.1.44"
