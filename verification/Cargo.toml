[package]
name = "rede_core"
version = "0.1.0"
edition = "2021"
publish = false

[dependencies]
http = "1"
miette = "7"
mime = "0.3"
toml = "0.8"
