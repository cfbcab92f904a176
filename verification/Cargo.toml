[package]
name = "pvw_cot"
version = "0.1.0"
edition = "2021"
publish = false

[dependencies]
ark-bn254 = "=0.5.0"
ark-ec = "=0.5.0"
ark-ff = "=0.5.0"
ark-std = "=0.5.0"
rand = "=0.8.8"
