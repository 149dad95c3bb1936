[package]
name = "rustganizer"
version = "0.3.0"
edition = "2021"
publish = false

[dependencies]
walkdir = "=2.5.0"
num_cpus = "=1.17.0"
sysinfo = "*"
