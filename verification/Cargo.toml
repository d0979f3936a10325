[package]
name = "audio_fx"
version = "0.1.0"
edition = "2021"
publish = false

[dependencies]
ringbuf = "0.2"
cpal = "0.14"
clap = { version = "3.2", features = ["derive"] }
