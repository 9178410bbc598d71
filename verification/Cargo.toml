[package]
name = "lsf"
version = "0.1.0"
edition = "2021"
publish = false

[dependencies]
unicode-width = "*"
chrono = "*"
uzers = "*"
terminal_size = "*"
clap = { version = "*", features = ["derive"] }
libc = "*"
