[package]
name = "fault_sim"
version = "0.1.0"
edition = "2021"
publish = false

[dependencies]
wgpu = "*"
pollster = "*"
env_logger = "*"
