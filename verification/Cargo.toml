[package]
name = "raytracer"
version = "0.1.0"
edition = "2021"
publish = false

[dependencies]
rand = "0.8"
minifb = "*"
waithandle = "*"
clap = "*"

[dependencies.image]
version = "*"
default-features = false
features = ["png"]
