[package]
name = "fang"
version = "0.1.0"
edition = "2021"
publish = false

[dependencies]
rpds = "1"
indented = "*"
once_cell = "1"
anyhow = "1"
clap = "2"
tree-sitter = "0.20"
