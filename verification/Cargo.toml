[package]
name = "cogs-gamedev"
version = "0.1.0"
edition = "2021"
publish = false

[dependencies]
rand = "0.8"
itertools = "0.10"
enum-map = "0.6"
num-traits = "0.2"
ahash = "0.7"
