[package]
name = "ray_tracer"
version = "0.1.0"
edition = "2021"
publish = false

[dependencies]
anyhow = "1"
minifb = "0.27"
tobj = "3"
