[package]
name = "otp_cryptor"
version = "0.1.0"
edition = "2021"
publish = false

[dependencies]
rand = "0.8"
rand_chacha = "0.3"
rand_hc = "0.3"
rand_xoshiro = "0.6"
structopt = "0.3"
