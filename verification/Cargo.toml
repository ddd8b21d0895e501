[package]
name = "blog_builder"
version = "0.1.0"
edition = "2021"
publish = false

[dependencies]
chrono = "0.4"
text-diff = "0.4"
walkdir = "2"
