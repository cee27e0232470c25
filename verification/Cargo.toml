[package]
name = "timer"
version = "0.1.0"
edition = "2021"
publish = false

[dependencies]
win32console = "*"
winrt-notification = "*"
