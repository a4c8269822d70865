[package]
name = "filelist"
version = "0.1.0"
edition = "2021"
publish = false

[dependencies]
htmlescape = "*"
pretty-bytes = "*"

[dev-dependencies]
serde_json = "*"
