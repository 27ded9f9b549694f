[package]
name = "dacom"
version = "0.1.0"
edition = "2021"
publish = false

[dependencies]
regex = "1"
sorted-vec = "*"
clap = { version = "4", features = ["derive"] }
colored = "2"
memmap2 = "0.9"
