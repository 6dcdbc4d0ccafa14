[package]
name = "gallivant"
version = "0.1.0"
edition = "2021"
publish = false

[dependencies]
chrono = "0.4"
ariadne = "*"
clap = { version = "4", features = ["derive"] }
serialport = { version = "4", default-features = false }
