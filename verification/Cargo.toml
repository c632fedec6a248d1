[package]
name = "qtensor"
version = "0.1.0"
edition = "2021"
publish = false

[dependencies]
indicatif = "*"
reqwest = { version = "*", default-features = false, features = ["rustls-tls"] }
tokio = { version = "*", features = ["rt", "macros"] }
