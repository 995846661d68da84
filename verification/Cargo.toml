[package]
name = "rust_cracker"
version = "0.1.0"
edition = "2021"
publish = false

[dependencies]
sled = "0.34"
hex = "0.4"
md-5 = "0.10"
sha1 = "0.10"
sha2 = "0.10"
rand = "0.8"
crossbeam = "0.8"
