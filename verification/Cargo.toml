[package]
name = "charchart"
version = "0.1.0"
edition = "2021"
publish = false

[dependencies]
bon = "3"
owo-colors = "4"
rust_decimal = "1"
