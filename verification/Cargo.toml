[package]
name = "tattoy"
version = "0.1.0"
edition = "2021"
publish = false

[dependencies]
rand = "=0.8.8"
serde = { version = "=1.0.229", features = ["derive"] }
serde_json = "=1.0.154"
toml = "=0.8.23"
image = { version = "=0.25.10", default-features = false, features = ["png"] }
termwiz = { version = "*", features = ["use_serde"] }
