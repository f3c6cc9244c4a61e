[package]
name = "chamap"
version = "0.1.0"
edition = "2021"
publish = false

[dependencies]
openssl = "0.10"
mapped-file = "*"
getrandom = "0.2"
base64 = "0.13"
libc = "0.2"
