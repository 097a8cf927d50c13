[package]
name = "rtc"
version = "0.1.0"
edition = "2021"
publish = false

[dependencies]
float-cmp = "*"
impl_ops = "*"
nalgebra = "*"
png = "*"
sdl2 = "*"
