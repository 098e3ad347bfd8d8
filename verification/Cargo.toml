[package]
name = "proton_caller"
version = "0.1.0"
edition = "2021"
publish = false

[dependencies]
jargon-args = "*"
lliw = "*"
