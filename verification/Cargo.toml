[package]
name = "event_runtime"
version = "0.1.0"
edition = "2021"
publish = false

[dependencies]
dynamic = "*"
time = "0.1"
