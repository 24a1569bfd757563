[package]
name = "zfuzz"
version = "0.1.0"
edition = "2021"
publish = false

[dependencies]
byteorder = "1"
clap = { version = "3", features = ["derive"] }
ELFParser = "1.0.1"
rand = "0.8"
rand_xoshiro = "0.6"
rustc-hash = "1"
