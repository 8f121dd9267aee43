[package]
name = "u8g2_fonts"
version = "0.1.0"
edition = "2021"
publish = false

[dependencies]
embedded-graphics-core = "0.4"
embedded-graphics = "0.8"
clap = { version = "4", features = ["derive"] }
miette = "*"
regex = "*"
lazy_static = "*"
indicatif = { version = "*", features = ["rayon"] }
rayon = "*"
