[package]
name = "softbody"
version = "0.1.0"
edition = "2021"
publish = false

[dependencies]
factorial = "*"
fixed = "1"
typenum = "1"
