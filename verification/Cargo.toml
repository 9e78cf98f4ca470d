[package]
name = "ebishell"
version = "0.1.0"
edition = "2021"
publish = false

[dependencies]
libc = "*"
rustyline = "*"
inline_colorization = "*"
