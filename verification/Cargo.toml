[package]
name = "dgc_processor"
version = "0.1.0"
edition = "2021"
publish = false

[dependencies]
rust-crypto = "0.2.36"
sawtooth-sdk = "*"
clap = "2"
log = "0.4"
log4rs = "*"
