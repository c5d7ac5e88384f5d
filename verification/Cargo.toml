[package]
name = "mandelbrot"
version = "0.1.0"
edition = "2021"
publish = false

[dependencies]
clap = { version = "4", features = ["derive"] }
image = "*"
indicatif = "*"
num = "0.4"
rand = "0.9"
rayon = "1"
