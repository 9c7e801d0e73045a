[package]
name = "matrix_rain"
version = "0.1.0"
edition = "2021"
publish = false

[dependencies]
rand = "0.8"
crossterm = "0.27"
glam = "0.29"
ab_glyph = "0.2"
bytemuck = { version = "1", features = ["derive"] }
