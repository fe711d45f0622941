[package]
name = "music_box_converter"
version = "0.1.0"
edition = "2021"
publish = false

[dependencies]
midly = "0.5"
clap = "4"
serde = { version = "1", features = ["derive"] }
serde_json = "1"
