[package]
name = "funnyshapes"
version = "0.1.0"
edition = "2021"
publish = false

[dependencies]
rand = "*"
ndarray = "*"
indicatif = "*"
clap = { version = "*", features = ["derive"] }
image = { version = "*", default-features = false, features = ["png"] }
