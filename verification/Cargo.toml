[package]
name = "transform_include"
version = "0.1.0"
edition = "2021"
publish = false

[dependencies]
regex = "1"
anyhow = "1"
clap = { version = "4", features = ["derive"] }
similar = "2"
tracing = "0.1"
tracing-subscriber = "0.3"
