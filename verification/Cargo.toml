[package]
name = "mdink"
version = "0.1.0"
edition = "2021"
publish = false

[dependencies]
pulldown-cmark = { version = "0.13", default-features = false }
textwrap = "0.16"
syntect = { version = "5", default-features = false, features = ["default-fancy"] }
unicode-width = "0.2"
ratatui = "0.29"
clap = { version = "4", features = ["derive"] }
color-eyre = "0.6"
