[package]
name = "v6prac"
version = "0.1.0"
edition = "2021"
publish = false

[dependencies]
device_query = "1.1"
femtovg = { version = "0.7", default-features = false }
glutin = "0.30"
glutin-winit = "0.3"
raw-window-handle = "0.5"
winit = "0.28"
