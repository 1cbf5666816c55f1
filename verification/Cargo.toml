[package]
name = "workshop_uploader"
version = "0.1.0"
edition = "2021"
publish = false

[dependencies]
ignore = "*"
infer = "*"
