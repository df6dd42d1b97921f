[package]
name = "sixes_game"
version = "0.1.0"
edition = "2021"
publish = false

[dependencies]
iced = { version = "0.9", default-features = false, features = ["canvas", "glow"] }
