[package]
name = "wallrotate"
version = "0.1.0"
edition = "2021"
publish = false

[dependencies]
anyhow = "1"
clap = { version = "4", features = ["derive"] }
rand = "0.9"
tokio = { version = "1", features = ["rt", "macros", "signal", "time"] }
walkdir = "2"
