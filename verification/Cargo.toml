[package]
name = "disgreet"
version = "0.1.0"
edition = "2021"
publish = false

[dependencies]
anyhow = "1"
clap = { version = "4", features = ["derive"] }
crossterm = "0.28"
image = { version = "0.25", default-features = false, features = ["bmp", "gif", "ico", "jpeg", "png", "pnm", "qoi", "tga", "tiff", "webp"] }
rust-ini = "0.21"
log = "0.4"
ratatui = "0.29"
serde_json = "1"
simplelog = "0.12"
thiserror = "2"
