[package]
name = "toy_rust_db"
version = "0.1.0"
edition = "2021"
publish = false

[dependencies]
csv = "1"
