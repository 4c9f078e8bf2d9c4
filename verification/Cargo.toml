[package]
name = "mouse_rate_checker"
version = "0.1.0"
edition = "2021"
publish = false

[dependencies]
crossbeam = "0.8"
interprocess = "*"
