[package]
name = "enum_traits"
version = "0.1.0"
edition = "2021"
publish = false

[dependencies]
num-bigint = "*"
num-traits = "*"
proc-macro2 = "*"
quote = "*"
syn = "*"
