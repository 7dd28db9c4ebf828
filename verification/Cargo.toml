[package]
name = "real_ip"
version = "0.1.0"
edition = "2021"
publish = false

[dependencies]
warp = "*"
rfc7239 = "*"
