[package]
name = "rspsx"
version = "0.1.0"
edition = "2021"
publish = false

[dependencies]
rand = "0.8"
memmap = "0.7"
jam = "*"
sdl2 = "*"
