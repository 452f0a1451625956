[package]
name = "image2"
version = "0.1.0"
edition = "2021"
publish = false

[dependencies]
euclid = "0.22"
glfw = "*"
glow = "*"
smol = "2"
