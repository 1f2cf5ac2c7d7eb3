[package]
name = "debpool"
version = "0.1.0"
edition = "2021"
publish = false

[dependencies]
libc = "*"
rayon = "*"
reqwest = { version = "*", default-features = false, features = ["blocking"] }
walkdir = "*"
