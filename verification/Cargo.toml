[package]
name = "fastnum"
version = "0.1.0"
edition = "2021"
publish = false

[dependencies]
bnum = "*"
rust_decimal = "*"
