[package]
name = "keysearch"
version = "0.1.0"
edition = "2021"
publish = false

[dependencies]
aes = "0.6"
block-modes = "0.7"
rayon = "1"
num_cpus = "1"
async-std = "1"
futures = "0.3"
