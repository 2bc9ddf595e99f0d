[package]
name = "phpserz"
version = "0.1.0"
edition = "2021"
publish = false

[dependencies]
fast-float2 = "0.2"
serde = "1"
