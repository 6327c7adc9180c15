[package]
name = "jg"
version = "0.1.0"
edition = "2021"
publish = false

[dependencies]
clap = "2"
colored = "1"
isatty = "0.1"
json = "0.11"
json-highlight-writer = "*"

[dev-dependencies]
regex = "1"
