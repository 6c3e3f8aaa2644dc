[package]
name = "keyremap"
version = "0.1.0"
edition = "2021"
publish = false

[dependencies]
evdev-rs = "0.5"
libc = "0.2"
uinput-sys = "0.1"
