[package]
name = "guess_game"
version = "0.1.0"
edition = "2021"
publish = false

[dependencies]
sp-runtime = "=48.0.0"
rand = "=0.8.8"
rand_chacha = "=0.3.1"
blake2 = "=0.10.6"
