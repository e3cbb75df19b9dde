[package]
name = "soft_raster"
version = "0.1.0"
edition = "2021"
publish = false

[dependencies]
glam = "*"
image = { version = "*", default-features = false, features = ["png", "jpeg"] }
minifb = "*"
obj-rs = "*"
sdl2 = "*"
