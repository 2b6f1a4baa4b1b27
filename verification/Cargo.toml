[package]
name = "w3_portal"
version = "0.1.0"
edition = "2021"
publish = false

[dependencies]
pnet = "0.35"
clap = { version = "4", features = ["derive"] }
