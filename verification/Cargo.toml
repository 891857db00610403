[package]
name = "uft"
version = "0.1.0"
edition = "2021"
publish = false

[dependencies]
crypto-hash = "*"
tokio = { version = "*", features = ["full"] }
stunclient = "*"
