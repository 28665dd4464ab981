[package]
name = "cgex"
version = "0.1.0"
edition = "2021"
publish = false

[dependencies]
alumina = "=0.1.1"
anyhow = "=1.0.104"
bytevec = "=0.2.0"
clap = { version = "=4.6.7", features = ["derive"] }
data-encoding = "=2.11.1"
image = "=0.25.10"
rayon = "=1.12.0"
ring = "=0.17.14"
