[package]
name = "uplc"
version = "0.1.0"
edition = "2021"
publish = false

[dependencies]
num-bigint = "=0.4.8"
num-integer = "=0.1.47"
num-traits = "=0.2.19"
cryptoxide = "=0.4.4"
secp256k1 = "0.30"
