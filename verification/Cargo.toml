[package]
name = "qrng"
version = "0.1.0"
edition = "2021"
publish = false

[dependencies]
anyhow = "1"
clap = { version = "4", features = ["derive"] }
cpal = "0.15"
opencv = "0.92"
serialport = "4"
sha3 = "0.10"
