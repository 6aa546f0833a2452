[package]
name = "spi"
version = "0.1.0"
edition = "2021"
publish = false

[dependencies]
anyhow = "1"
case_insensitive_hashmap = "*"
clap = { version = "3", features = ["derive"] }
cli-table = "*"
colored = "2"
rustc_apfloat = "*"
