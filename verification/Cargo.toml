[package]
name = "stringly_typed"
version = "0.1.0"
edition = "2021"
publish = false

[dependencies]
quote = "0.4"
syn = "0.12"
synstructure = "0.7"
