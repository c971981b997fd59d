[package]
name = "advanced_table"
version = "0.1.0"
edition = "2021"
publish = false

[dependencies]
iced = { version = "*", default-features = false, features = ["advanced", "tiny-skia", "thread-pool", "x11"] }
