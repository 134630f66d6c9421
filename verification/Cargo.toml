[package]
name = "worldgen"
version = "0.1.0"
edition = "2021"
publish = false

[dependencies]
fastrand = "*"
lz4_flex = "*"
fastnoise-lite = "*"
rayon = "*"
serde = { version = "*", features = ["derive"] }
serde_json = "*"
