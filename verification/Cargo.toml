[package]
name = "feedforward"
version = "0.1.0"
edition = "2021"
publish = false

[dependencies]
rand = "0.6"
rulinalg = "0.4"
mnist = "*"
