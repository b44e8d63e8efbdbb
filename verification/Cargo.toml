[package]
name = "base64check"
version = "0.1.0"
edition = "2021"
publish = false

[dependencies]
data-encoding = "2"
rand = "0.8"
tokio = { version = "1", features = ["rt-multi-thread", "macros"] }
