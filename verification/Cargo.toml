[package]
name = "physics_sync"
version = "0.1.0"
edition = "2021"
publish = false

[dependencies]
gfx = "*"
gfx_device_gl = "*"
image = "=0.12.4"
nalgebra = "*"
nphysics2d = "=0.24.0"
tobj = "=0.1.12"
