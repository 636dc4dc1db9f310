[package]
name = "chip8"
version = "0.1.0"
edition = "2021"
publish = false

[dependencies]
fastrand = "2"
serde = { version = "1", features = ["derive"] }
serde_with = "3"
toml = "0.8"
winit = "0.30"
winit_input_helper = "0.17"
softbuffer = "0.4"
rodio = "0.21"
