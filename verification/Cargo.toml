[package]
name = "xc2bit"
version = "0.1.0"
edition = "2021"
publish = false

[dependencies]
jedec = "*"
serde = { version = "1", features = ["derive"] }
serde_derive = "1"
