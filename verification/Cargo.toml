[package]
name = "pomodoro"
version = "0.1.0"
edition = "2021"
publish = false

[dependencies]
crossterm = "0.25"
rodio = "0.11"
structopt = "0.3"
tui = "0.19"
wsl = "0.1"
