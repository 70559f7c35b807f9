[package]
name = "mouscache"
version = "0.1.0"
edition = "2021"
publish = false

[dependencies]
redis = "*"
r2d2 = "*"
dns-lookup = "*"
