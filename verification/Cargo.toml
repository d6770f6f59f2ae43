[package]
name = "chip8"
version = "0.1.0"
edition = "2021"
publish = false

[dependencies]
rand = "0.8"
clap = "2"
sdl2 = "*"
fps_clock = "*"
log = "*"
env_logger = "*"
