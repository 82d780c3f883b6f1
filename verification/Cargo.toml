[package]
name = "loong_ctrl"
version = "0.1.0"
edition = "2021"
publish = false

[dependencies]
rand = "0.7"
thiserror = "1"
piston2d-graphics = "*"
piston2d-opengl_graphics = "*"
