[package]
name = "lookit"
version = "0.1.0"
edition = "2021"
publish = false

[dependencies]
pasts = "*"
smelling_salts = "*"
