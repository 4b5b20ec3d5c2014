[package]
name = "rogue"
version = "0.1.0"
edition = "2021"
publish = false

[dependencies]
bracket-lib = "0.8"
legion = "0.4"
macroquad = "0.3"
macroquad-tiled = "0.1"
