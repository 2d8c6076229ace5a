[package]
name = "sieve"
version = "0.1.0"
edition = "2021"
publish = false

[dependencies]
mail-builder = "0.2"
mail-parser = "0.7"
regex = "1"
serde = { version = "1", features = ["derive"] }
