[package]
name = "collatz_dispatch"
version = "0.1.0"
edition = "2021"
publish = false

[dependencies]
wgpu = "24"
flume = "0.11"
pollster = "0.4"
clap = { version = "4", features = ["derive"] }
tokio = { version = "1", features = ["rt-multi-thread", "macros", "net", "io-util", "fs"] }
env_logger = "0.11"
log = "0.4"
