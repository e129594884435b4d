[package]
name = "embedded_time"
version = "0.1.0"
edition = "2021"
publish = false

[dependencies]
num = { version = "0.3", default-features = false }
