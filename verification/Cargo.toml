[package]
name = "story_engine"
version = "0.1.0"
edition = "2021"
publish = false

[dependencies]
csv = "1.1.6"
