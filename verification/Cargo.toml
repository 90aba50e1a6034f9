[package]
name = "abagames_util"
version = "0.1.0"
edition = "2021"
publish = false

[dependencies]
rand_mt = "*"
chrono = "0.4"
rayon = "1"
cgmath = "*"
gfx = "0.18"
directories = "*"
