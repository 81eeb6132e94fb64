[package]
name = "simple_wm"
version = "0.1.0"
edition = "2021"
publish = false

[dependencies]
serde = { version = "*", features = ["derive"] }
x11 = { version = "*", features = ["xlib"] }
