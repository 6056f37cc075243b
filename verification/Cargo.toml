[package]
name = "compressor_core"
version = "0.1.0"
edition = "2021"
publish = false

[dependencies]
ringbuf = "0.2"
serde = { version = "1", features = ["derive"] }
vst = "0.2"
imgui = "0.7"
keyboard-types = "0.5"
raw-window-handle = "0.3"
baseview = "0.1"
