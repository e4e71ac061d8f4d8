[package]
name = "rwatch"
version = "0.1.0"
edition = "2021"
publish = false

[dependencies]
crossterm = "0.28"
libc = "0.2"
mach2 = "0.4"
