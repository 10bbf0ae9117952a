[package]
name = "rhotic"
version = "0.1.0"
edition = "2021"
publish = false

[dependencies]
anyhow = "1"
fontdue = "0.8"
softbuffer = "0.4"
toml = "0.8"
winit = "0.29"
