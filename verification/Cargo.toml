[package]
name = "korp_mono"
version = "0.1.0"
edition = "2021"
publish = false

[dependencies]
serde = { version = "*", features = ["derive"] }
quick-xml = { version = "*", features = ["serialize"] }
clap = { version = "*", features = ["derive"] }
walkdir = "*"
rayon = "*"
