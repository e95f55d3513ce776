[package]
name = "vgm_render"
version = "0.1.0"
edition = "2021"
publish = false

[dependencies]
cxx = "*"
flate2 = "*"
ymfm-sys = "*"
