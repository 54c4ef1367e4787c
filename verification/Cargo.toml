[package]
name = "txtbatch"
version = "0.1.0"
edition = "2021"
publish = false

[dependencies]
anyhow = "=1.0.104"
clap = { version = "=4.6.7", features = ["derive"] }
colored = "=3.1.1"
eframe = { version = "*", default-features = false, features = ["glow", "x11", "default_fonts"] }
memchr = "=2.8.3"
rfd = { version = "*", default-features = false, features = ["xdg-portal", "tokio"] }
rust-ini = "=0.21.3"
walkdir = "=2.5.0"
