[package]
name = "ntfs_reader_cli"
version = "0.1.0"
edition = "2021"
publish = false

[dependencies]
regex = "1"
serde = { version = "1", features = ["derive"] }
serde_json = "1"
bincode = "1"
rmp-serde = "1"
clap = { version = "4", features = ["derive"] }
anyhow = "1"
time = { version = "0.3", features = ["formatting"] }
ntfs-reader = "*"
