[package]
name = "plabayo_news"
version = "0.1.0"
edition = "2021"
publish = false

[dependencies]
anyhow = "1"
convert_case = "0.4"
fnv = "1"
pulldown-cmark = { version = "0.8", default-features = false }
serde = { version = "1", features = ["derive"] }
serde_yaml = "0.8"
toml = "0.5"
