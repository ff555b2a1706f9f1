[package]
name = "spectra"
version = "0.1.0"
edition = "2021"
publish = false

[dependencies]
anyhow = "1"
clap = { version = "4", features = ["derive"] }
cpal = "0.15"
crossterm = "0.28"
parking_lot = "0.12"
ratatui = "0.29"
rodio = "0.19"
rustfft = "6"
