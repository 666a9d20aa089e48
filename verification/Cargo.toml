[package]
name = "png_viewer"
version = "0.1.0"
edition = "2021"
publish = false

[dependencies]
colored = "2"
flate2 = "1"
pixels = "0.13"
winit = "0.28"
