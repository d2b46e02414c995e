[package]
name = "rt_audio_effect"
version = "0.1.0"
edition = "2021"
publish = false

[dependencies]
apodize = "=1.0.0"
colored = "=3.1.1"
cpal = "=0.18.2"
egui = "=0.27.2"
egui_glfw = "=0.55.2"
gl = "=0.14.0"
glam = "=0.30.10"
glamour = "=0.18.0"
glfw = "=0.58.0"
log = "=0.4.35"
mdns-sd = "=0.21.7"
rustfft = "=6.4.1"
