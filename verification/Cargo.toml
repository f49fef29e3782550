[package]
name = "yang_schema"
version = "0.1.0"
edition = "2021"
publish = false

[dependencies]
regex = "*"
highlight_error = "*"
miette = "*"
