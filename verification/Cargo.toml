[package]
name = "webcam_controls"
version = "0.1.0"
edition = "2021"
publish = false

[dependencies]
v4l = "0.14"
xdg = "2.5"
open = "5"
