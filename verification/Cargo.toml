[package]
name = "admin_toolbox"
version = "0.1.0"
edition = "2021"
publish = false

[dependencies]
md5 = "*"
html-escape = "*"
serde_json = "*"
crossterm = "*"
ratatui = "*"
