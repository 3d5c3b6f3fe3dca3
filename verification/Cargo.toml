[package]
name = "font_viewer"
version = "0.1.0"
edition = "2021"
publish = false

[dependencies]
glob = "=0.3.4"
iced = "=0.14.0"
iced_graphics = "=0.14.0"
