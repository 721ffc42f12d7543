[package]
name = "apng_encoder"
version = "0.1.0"
edition = "2021"
publish = false

[dependencies]
flate2 = "1"
image = { version = "*", default-features = false, features = ["png"] }
