[package]
name = "cardpack"
version = "0.1.0"
edition = "2021"
publish = false

[dependencies]
fluent-templates = "*"
rand = "0.8"
unic-langid = "*"
