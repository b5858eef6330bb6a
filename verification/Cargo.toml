[package]
name = "paperdoll_store"
version = "0.1.0"
edition = "2021"
publish = false

[dependencies]
paperdoll-tar = "*"
anyhow = "*"
