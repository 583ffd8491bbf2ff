[package]
name = "rumbac"
version = "0.1.0"
edition = "2021"
publish = false

[dependencies]
anyhow = "1"
serialport = { version = "4", default-features = false }
xflags = "0.3"
