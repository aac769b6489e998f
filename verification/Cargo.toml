[package]
name = "dxlspy"
version = "0.1.0"
edition = "2021"
publish = false

[dependencies]
anyhow = "1"
chrono = "0.4"
clap = { version = "4", features = ["derive"] }
owo-colors = "4"
serialport = { version = "4", default-features = false }
