[package]
name = "dctp"
version = "0.1.0"
edition = "2021"
publish = false

[dependencies]
uuid = "1"
sha2 = "0.10"
