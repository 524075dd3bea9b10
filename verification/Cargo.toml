[package]
name = "density_ring"
version = "0.1.0"
edition = "2021"
publish = false

[dependencies]
indicatif = { version = "=0.17.11", features = ["rayon"] }
rand = "=0.8.8"
rayon = "=1.12.0"
