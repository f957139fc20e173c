[package]
name = "sized_pool"
version = "0.1.0"
edition = "2021"
publish = false

[dependencies]
dynamic-pool = "*"
