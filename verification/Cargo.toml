[package]
name = "kaname"
version = "0.1.0"
edition = "2021"
publish = false

[dependencies]
seq-macro = "0.3"
