[package]
name = "doprs"
version = "0.1.0"
edition = "2021"
publish = false

[dependencies]
chrono = { version = "0.4", default-features = false, features = ["std"] }
ndarray = "0.16"
rayon = "1"
regex = "1"
