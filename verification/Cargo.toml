[package]
name = "pokedex"
version = "0.1.0"
edition = "2021"
publish = false

[dependencies]
rocket = "0.5"
reqwest = { version = "0.11", default-features = false }
humantime = "2"
log = "0.4"
