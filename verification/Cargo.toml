[package]
name = "color_namer"
version = "0.1.0"
edition = "2021"
publish = false

[dependencies]
clap = { version = "4", features = ["derive"] }
copypasta = "*"
hex = "0.4"
minreq = "2"
regex = "1"
serde = { version = "1", features = ["derive"] }
serde_json = "1"
