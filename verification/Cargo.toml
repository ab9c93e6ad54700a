[package]
name = "terrain_mesh"
version = "0.1.0"
edition = "2021"
publish = false

[dependencies]
rand = "0.7"
noise = { version = "0.6", default-features = false }
splines = "3"
ron = "0.6"
serde = { version = "1", features = ["derive"] }
