[package]
name = "bios"
version = "0.1.0"
edition = "2021"
publish = false

[dependencies]
crossterm = "*"
lazy_static = "1"
libloading = "*"
raylib = "*"
rayon = "1"
rmp-serde = "1"
serde = { version = "1", features = ["derive"] }
stabby = "*"
