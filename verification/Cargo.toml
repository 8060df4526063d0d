[package]
name = "glintindex_core"
version = "0.1.0"
edition = "2021"
publish = false

[dependencies]
syntect = { version = "5", default-features = false, features = ["default-fancy"] }
walkdir = "2"
notify = "6"
open = "5"
anyhow = "1"
tracing = "0.1"
