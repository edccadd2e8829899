[package]
name = "rmesh"
version = "0.1.0"
edition = "2021"
publish = false

[dependencies]
rustc_apfloat = "*"
libm = "*"
bytemuck = "*"
nalgebra = "*"
earcut = "*"
approx = "*"
