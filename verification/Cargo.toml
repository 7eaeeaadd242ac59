[package]
name = "totp"
version = "0.1.0"
edition = "2021"
publish = false

[dependencies]
bardecoder = "=0.5.0"
data-encoding = "=2.11.1"
image = "=0.24.9"
ring = "=0.17.14"
url = "=2.5.8"
