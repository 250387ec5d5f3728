[package]
name = "dirnav"
version = "0.1.0"
edition = "2021"
publish = false

[dependencies]
anyhow = "*"
clap = "*"
crossterm = "*"
ratatui = "*"
