[package]
name = "bide"
version = "0.1.0"
edition = "2021"
publish = false

[dependencies]
clap = { version = "4", features = ["derive"] }
libc = "0.2"
signal-hook = "0.3"
socket2 = "0.5"
