[package]
name = "dockside"
version = "0.1.0"
edition = "2021"
publish = false

[dependencies]
rand = "0.8"
num-format = "0.4"
