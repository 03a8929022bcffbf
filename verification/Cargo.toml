[package]
name = "bsv_core"
version = "0.1.0"
edition = "2021"
publish = false

[dependencies]
hex = "0.4"
sha2 = "0.10"
k256 = "0.13"
