[package]
name = "linreg_air"
version = "0.1.0"
edition = "2021"

[dependencies]
winterfell = "*"
