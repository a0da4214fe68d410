[package]
name = "little-bat"
version = "0.1.0"
edition = "2021"
publish = false

[dependencies]
battery = "0.7"
clap = { version = "4", features = ["derive"] }
crossterm = "0.28"
ratatui = "0.29"
