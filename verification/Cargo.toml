[package]
name = "ske_rs"
version = "0.1.0"
edition = "2021"
publish = false

[dependencies]
clap = { version = "*", features = ["derive"] }
dlopen = "*"
dlopen_derive = "*"
lazy_static = "*"
tempfile = "*"
