[package]
name = "pokemon_term"
version = "0.1.0"
edition = "2021"
publish = false

[dependencies]
anyhow = "1"
lexopt = "0.3"
rand = "0.9"
serde = { version = "1", features = ["derive"] }
serde_json = "1"
