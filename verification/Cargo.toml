[package]
name = "bebop"
version = "0.1.0"
edition = "2021"
publish = false

[dependencies]
serde = { version = "1", features = ["derive"] }
serde_json = "1"
sim = "*"
clap = { version = "4", features = ["derive"] }
log = "0.4"
