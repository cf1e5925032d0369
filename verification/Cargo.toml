[package]
name = "engine"
version = "0.1.0"
edition = "2021"
publish = false

[dependencies]
fnv = "1"
image = { version = "*", default-features = false, features = ["png"] }
cgmath = "*"
gl = "*"
glutin = "0.19"
spin_sleep = "*"
