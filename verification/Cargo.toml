[package]
name = "skindl"
version = "0.1.0"
edition = "2021"
publish = false

[dependencies]
zip = "*"
unrar = "*"
sevenz-rust = "*"
tempfile = "*"

[dev-dependencies]
walkdir = "*"
