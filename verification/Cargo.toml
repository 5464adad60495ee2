[package]
name = "tagmv"
version = "0.1.0"
edition = "2021"
publish = false

[dependencies]
anyhow = "1"
clap = { version = "4", features = ["derive"] }
colored = "2"
libc = "0.2"
lofty = "0.22"
walkdir = "2"
