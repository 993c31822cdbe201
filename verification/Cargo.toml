[package]
name = "imagedl"
version = "0.1.0"
edition = "2021"
publish = false

[dependencies]
indicatif = "*"
reqwest = { version = "*", default-features = false, features = ["blocking"] }
serde = { version = "*", features = ["derive"] }
serde_json = "*"
