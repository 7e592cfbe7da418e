[package]
name = "rendmp"
version = "0.1.0"
edition = "2021"
publish = false

[dependencies]
anyhow = "=1.0.104"
bitfield = "=0.13.2"
clap = { version = "=3.2.25", features = ["derive"] }
indicatif = "0.17"
parse_int = "=0.6.0"
