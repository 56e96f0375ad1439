[package]
name = "tistory"
version = "0.1.0"
edition = "2021"
publish = false

[dependencies]
comrak = { version = "*", default-features = false }
hyper = "0.12"
hyper-tls = "0.3"
serde = "1"
serde_derive = "1"
serde_json = "1"
