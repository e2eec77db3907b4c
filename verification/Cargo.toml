[package]
name = "no_captcha"
version = "0.1.0"
edition = "2021"
publish = false

[dependencies]
async-std = "*"
base64 = "0.13"
rayon = "*"
serde = { version = "*", features = ["derive"] }
tensorflow = "*"
tide = "*"
