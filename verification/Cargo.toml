[package]
name = "snake"
version = "0.1.0"
edition = "2021"
publish = false

[dependencies]
itertools = "0.12"
rand = "0.8"
bevy = { version = "0.12", default-features = false }
