[package]
name = "midiplay"
version = "0.1.0"
edition = "2021"
publish = false

[dependencies]
midly = "*"
serde = { version = "*", features = ["derive"] }
