[package]
name = "chip8_core"
version = "0.1.0"
edition = "2021"
publish = false

[dependencies]
rand = "0.8"
getch-rs = "*"
log = "0.4"
simplelog = "*"
