[package]
name = "tortuga"
version = "0.1.0"
edition = "2021"
publish = false

[dependencies]
bytes = "1"
clap = { version = "3", features = ["derive"] }
crossbeam = "0.8"
futures = "0.3"
rustyline = "9"
thiserror = "1"
tokio = { version = "1", features = ["fs", "rt", "sync"] }
tokio-util = { version = "0.7", features = ["compat"] }
tracing = "0.1"
tracing-log = "0.1"
tracing-subscriber = "0.3"
walkdir = "2"
wasmer-runtime = "1.0.1"
wat = "1"
