[package]
name = "ch9329"
version = "0.1.0"
edition = "2021"
publish = false

[dependencies]
anyhow = "1"
clap = { version = "4", features = ["derive"] }
serialport = { version = "4", default-features = false }
tracing = "0.1"
tracing-subscriber = "0.3"
