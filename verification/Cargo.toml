[package]
name = "ferris-wheel"
version = "0.1.0"
edition = "2021"
publish = false

[dependencies]
petgraph = "*"
serde_json = "*"
glob = "*"
console = "*"
clap = { version = "*", features = ["derive", "env"] }
miette = { version = "*", features = ["fancy"] }
indicatif = "*"
rayon = "*"
serde = { version = "*", features = ["derive"] }
toml = "*"
walkdir = "*"
thiserror = "*"

[dev-dependencies]
tempfile = "*"
