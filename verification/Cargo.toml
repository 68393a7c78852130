[package]
name = "neo_passgen"
version = "0.1.0"
edition = "2021"
publish = false

[dependencies]
base94 = "*"
sha2 = "0.10"
