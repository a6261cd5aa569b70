[package]
name = "webp_converter_app"
version = "0.1.0"
edition = "2021"
publish = false

[dependencies]
anyhow = "*"
rayon = "*"
stb_image = "*"
webp = "*"
