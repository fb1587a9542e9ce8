[package]
name = "vimltui"
version = "0.2.11"
edition = "2021"
publish = false

[dependencies]
crossterm = "0.29"
ratatui = "0.30"
regex = "1"
unicode-width = "0.2"
