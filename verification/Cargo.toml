[package]
name = "sstan"
version = "0.1.0"
edition = "2021"
publish = false

[dependencies]
solang-parser = "*"
regex = "1"
thiserror = "1"
