[package]
name = "mynmon"
version = "0.1.0"
edition = "2021"
publish = false

[dependencies]
crossterm = "=0.27.0"
sysinfo = "=0.30.13"
