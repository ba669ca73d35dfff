[package]
name = "small_gl_core"
version = "0.1.0"
edition = "2021"

[dependencies]
glam = "=0.34.1"
image = "*"
russimp = "*"
