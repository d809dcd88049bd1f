[package]
name = "nvmon"
version = "0.1.0"
edition = "2021"
publish = false

[dependencies]
clap = { version = "4", features = ["derive"] }
crossterm = "0.29"
libc = "0.2"
nvml-wrapper = "0.11"
ratatui = "0.30"
unicode-width = "0.2"
windows-sys = { version = "0.52", features = ["Win32_Foundation", "Win32_System_Threading"] }
