[package]
name = "scaproust"
version = "0.1.0"
edition = "2021"
publish = false

[dependencies]
mio = "0.5"
