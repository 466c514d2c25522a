[package]
name = "palette"
version = "0.1.0"
edition = "2021"
publish = false

[dependencies]
arrayvec = "=0.5.2"
rgx = { version = "=0.9.0", default-features = false }
