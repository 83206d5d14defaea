[package]
name = "simple_i18n"
version = "0.1.0"
edition = "2021"
publish = false

[dependencies]
rust-i18n = "*"
fixed_decimal = "*"
