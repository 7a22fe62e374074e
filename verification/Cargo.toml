[package]
name = "sitegen"
version = "0.1.0"
edition = "2021"
publish = false

[dependencies]
pulldown-cmark = "*"
syntect = "*"
mustache = "*"
toml = "*"
serde = { version = "*", features = ["derive"] }
