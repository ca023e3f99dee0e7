[package]
name = "nap"
version = "0.1.0"
edition = "2021"
publish = false

[dependencies]
apk = "*"
sha2 = "*"
hex = "*"
