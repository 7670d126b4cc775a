[package]
name = "minstant"
version = "0.1.0"
edition = "2021"
publish = false

[dependencies]
coarsetime = "0.1"
libc = "0.2"
web-time = "1"
