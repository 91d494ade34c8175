[package]
name = "m5flat"
version = "0.1.0"
edition = "2021"
publish = false

[dependencies]
anyhow = "*"
csv = "*"
encoding_rs = "*"
encoding_rs_io = "*"
noisy_float = "*"
