[package]
name = "dial_responder"
version = "0.1.0"
edition = "2021"
publish = false

[dependencies]
http = "=0.2.12"
tokio = { version = "=1.53.2", features = ["full"] }
