[package]
name = "try_replay"
version = "0.1.0"
edition = "2021"
publish = false

[dependencies]
parity-scale-codec = "3"
hex = "0.4"
clap = { version = "4", features = ["derive"] }
