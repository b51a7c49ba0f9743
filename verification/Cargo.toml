[package]
name = "mdr"
version = "0.1.0"
edition = "2021"
publish = false

[dependencies]
unicode-width = "0.1"
once_cell = "1"
pulldown-cmark = "0.10"
syntect = "5"
crossterm = "0.27"
ratatui = "0.26"
