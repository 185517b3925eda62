[package]
name = "photo_suffix_mover"
version = "0.1.0"
edition = "2021"
publish = false

[dependencies]
clap = { version = "=4.6.7", features = ["derive"] }
serde = { version = "=1.0.229", features = ["derive"] }
sha2 = "=0.11.1"
walkdir = "=2.5.0"
