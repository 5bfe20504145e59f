[package]
name = "ec_precompiles"
version = "0.1.0"
edition = "2021"
publish = false

[dependencies]
ark-bn254 = "*"
ark-bls12-381 = "*"
ark-ec = "*"
ark-ff = "*"
