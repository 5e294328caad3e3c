[package]
name = "pingr"
version = "0.1.0"
edition = "2021"
publish = false

[dependencies]
pnet = "=0.35.0"
time = "=0.1.45"
