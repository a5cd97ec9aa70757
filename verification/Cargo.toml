[package]
name = "gg_engine"
version = "0.1.0"
edition = "2021"
publish = false

[dependencies]
ash = "0.38"
glam = "*"
gltf = "1"
log = "0.4"
serde = { version = "1", features = ["derive"] }
ttf-parser = "*"
