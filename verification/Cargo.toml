[package]
name = "block_game"
version = "0.1.0"
edition = "2021"
publish = false

[dependencies]
anyhow = "=1.0.104"
cgmath = "=0.18.0"
encase = { version = "=0.6.1", features = ["cgmath"] }
