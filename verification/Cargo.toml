[package]
name = "novluno_sdl"
version = "0.1.0"
edition = "2021"
publish = false

[dependencies]
sdl2 = "*"
rusttype = "*"
lazy_static = "1"
