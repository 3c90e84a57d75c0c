[package]
name = "yt_dlp_gui"
version = "0.1.0"
edition = "2021"
publish = false

[dependencies]
sha2 = "0.10"
regex = "1"
dirs = "5"
anyhow = "1"
