[package]
name = "crate_settings"
version = "0.1.0"
edition = "2021"
publish = false

[dependencies]
toml = "0.8"
proc-macro2 = "1"
quote = "1"
syn = "2"
derive-syn-parse = "*"
walkdir = "2"
