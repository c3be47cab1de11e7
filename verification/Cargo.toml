[package]
name = "oumalibc"
version = "0.1.0"
edition = "2021"
publish = false

[dependencies]
cbitset = "*"
num-traits = "0.2"
