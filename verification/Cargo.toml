[package]
name = "typelan"
version = "0.1.0"
edition = "2021"
publish = false

[dependencies]
evdev = "=0.13.2"
rdev = "=0.5.3"
core-foundation = "=0.10.1"
core-foundation-sys = "=0.8.7"
