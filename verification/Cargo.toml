[package]
name = "cmrt_tui"
version = "0.1.0"
edition = "2021"
publish = false

[dependencies]
anyhow = "1"
crossterm = "*"
midly = "0.5"
ratatui = "*"
rodio = "0.20"
serde_json = "1"
tui-textarea = "*"
