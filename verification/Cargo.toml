[package]
name = "buildbench"
version = "0.1.0"
edition = "2021"
publish = false

[dependencies]
cargo_toml = "=0.22.3"
clap = "=2.34.0"
prettytable-rs = "=0.10.0"
tempfile = "=3.27.0"
