[package]
name = "csw"
version = "0.1.0"
edition = "2021"
publish = false

[dependencies]
flate2 = "=1.0.35"
libz-sys = { version = "=1.1.31", features = ["static"] }
