[package]
name = "hash_bench"
version = "0.1.0"
edition = "2021"
publish = false

[dependencies]
ahash = "0.8"
byteorder = "1"
murmur3 = "0.4"
rand = "0.8"
seahash = "4"
