[package]
name = "ring_reactor"
version = "0.1.0"
edition = "2021"
publish = false

[dependencies]
nc = "*"
