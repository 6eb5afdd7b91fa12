[package]
name = "likemod"
version = "0.1.0"
edition = "2021"
publish = false

[dependencies]
libc = "*"
errno = "*"
tokio = { version = "*", features = ["time"] }
