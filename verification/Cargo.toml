[package]
name = "socket_addrs"
version = "0.1.0"
edition = "2021"
publish = false

[dependencies]
pin-project-lite = "*"
