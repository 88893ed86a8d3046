[package]
name = "libration"
version = "0.1.0"
edition = "2021"
publish = false

[dependencies]
iced = { version = "0.4", features = ["canvas", "tokio"] }
