[package]
name = "schedule_pulse"
version = "0.1.0"
edition = "2021"
publish = false

[dependencies]
lazy_static = "1"
pulse = "*"
time = "0.1"
