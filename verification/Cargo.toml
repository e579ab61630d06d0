[package]
name = "neptune"
version = "1.0.0"
edition = "2021"
publish = false

[dependencies]
line-col = "0.2"
rustyline = "10"
