[package]
name = "rzip_core"
version = "0.1.0"
edition = "2021"
publish = false

[dependencies]
zip = { version = "2", default-features = false, features = ["deflate", "bzip2", "zstd"] }
walkdir = "2"
clap = { version = "4", features = ["derive"] }
thiserror = "1"
anyhow = "1"
