[package]
name = "naronbenh"
version = "0.1.0"
edition = "2021"
publish = false

[dependencies]
image = "=0.25.10"
rayon = "=1.12.0"
chrono = "=0.4.45"
clap = { version = "=4.6.7", features = ["derive"] }
async-proto = "=0.26.19"
