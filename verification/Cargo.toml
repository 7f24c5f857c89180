[package]
name = "toy_browser"
version = "0.1.0"
edition = "2021"
publish = false

[dependencies]
ecow = "*"
log = "*"
serde_json = "*"
rustc-hash = "*"
strum = { version = "*", features = ["derive"] }
nom = "*"
