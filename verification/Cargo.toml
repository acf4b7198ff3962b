[package]
name = "discrete_num"
version = "0.1.0"
edition = "2021"
publish = false

[dependencies]
algebra = "*"
ident = "*"
