[package]
name = "ping_pong"
version = "0.1.0"
edition = "2021"
publish = false

[dependencies]
bytes = "0.2"
mio = "0.4"
