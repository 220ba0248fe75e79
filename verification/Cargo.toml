[package]
name = "protomaps_alpha"
version = "0.1.0"
edition = "2021"
publish = false

[dependencies]
cairo-rs = { version = "0.21", features = ["png"] }
piet = "=0.8.0"
piet-cairo = "=0.8.0"
quick-protobuf = "=0.8.1"
