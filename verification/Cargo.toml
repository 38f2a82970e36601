[package]
name = "rx"
version = "0.1.0"
edition = "2021"
publish = false

[dependencies]
rgx = { version = "=0.8.1", default-features = false }
nonempty = "=0.12.0"
