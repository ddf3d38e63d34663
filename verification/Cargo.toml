[package]
name = "space_sim"
version = "0.1.0"
edition = "2021"
publish = false

[dependencies]
glam = "=0.30.10"
hecs = "=0.10.5"
miniquad = "=0.4.11"
rand = "=0.9.5"
rapier3d = "=0.30.1"
