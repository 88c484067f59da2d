[package]
name = "fungible"
version = "0.1.0"
edition = "2021"
publish = false

[dependencies]
fuels = "0.36"
tokio = { version = "1", features = ["rt", "macros"] }
