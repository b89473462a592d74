[package]
name = "turbo_vc"
version = "0.1.0"
edition = "2021"
publish = false

[dependencies]
triomphe = "*"
serde = { version = "*", features = ["derive"] }
