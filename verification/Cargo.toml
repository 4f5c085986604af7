[package]
name = "katcp"
version = "0.1.0"
edition = "2021"
publish = false

[dependencies]
chrono = "0.4"
nom = "7"
rustc_version = "0.4"
