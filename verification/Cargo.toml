[package]
name = "ports_info"
version = "0.1.0"
edition = "2021"
publish = false

[dependencies]
sysinfo = "*"
chrono = "*"
