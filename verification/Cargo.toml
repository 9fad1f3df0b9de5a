[package]
name = "frontmatter"
version = "0.1.0"
edition = "2021"
publish = false

[dependencies]
toml = "0.5"
serde_yaml = "0.8"
serde = "1"
clap = "3"
walkdir = "2"
thiserror = "1"
