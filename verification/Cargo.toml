[package]
name = "zorca"
version = "0.1.0"
edition = "2021"
publish = false

[dependencies]
clap = "2"
futures = "0.1"
hyper = { version = "0.14", features = ["client", "server", "http1", "tcp", "runtime"] }
hyper-staticfile = "0.9"
serde = { version = "1", features = ["derive"] }
serde_derive = "1"
serde_json = "1"
time = "0.1"
tokio = { version = "1", features = ["rt", "time", "net"] }
tokio-core = "0.1"
yaml-rust = "0.4"
