[package]
name = "leonos"
version = "0.1.0"
edition = "2021"
publish = false

[dependencies]
volatile = "0.2"
const_format = "*"
