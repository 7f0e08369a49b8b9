[package]
name = "base16_color_scheme"
version = "0.1.0"
edition = "2021"
publish = false

[dependencies]
ramhorns = "*"
serde = { version = "*", features = ["derive"] }
