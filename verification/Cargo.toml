[package]
name = "arc_handles"
version = "0.1.0"
edition = "2021"
publish = false

[dependencies]
itertools = "*"
uuid = { version = "*", features = ["v4"] }
