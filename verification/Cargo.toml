[package]
name = "fractal_field"
version = "0.1.0"
edition = "2021"
publish = false

[dependencies]
image = "*"
little_exif = "*"
