[package]
name = "cairo_circuit"
version = "0.1.0"
edition = "2021"
publish = false

[dependencies]
cairo-lang-utils = "*"
num-bigint = "0.4"
num-traits = "0.2"
