[package]
name = "vocoder"
version = "0.1.0"
edition = "2021"
publish = false

[dependencies]
portaudio = "*"
rand = "*"
