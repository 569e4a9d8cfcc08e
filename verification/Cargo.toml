[package]
name = "phala_mining"
version = "0.1.0"
edition = "2021"
publish = false

[dependencies]
fixed = "*"
fixed-sqrt = "*"

[dev-dependencies]
primitive-types = "*"
