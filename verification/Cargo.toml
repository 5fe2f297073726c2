[package]
name = "xee"
version = "0.1.0"
edition = "2021"
publish = false

[dependencies]
ahash = "*"
rust_decimal = "*"
xot = "*"
ibig = "*"
