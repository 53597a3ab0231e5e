[package]
name = "zellij_cn_ui"
version = "0.1.0"
edition = "2021"
publish = false

[dependencies]
unicode-width = "*"
zellij-tile = "*"
