[package]
name = "rustoom"
version = "0.1.0"
edition = "2021"
publish = false

[dependencies]
bytes = "1"
sdl2 = "0.35"
