[package]
name = "sicompass_ui"
version = "0.2.0"
edition = "2021"
publish = false

[dependencies]
sicompass-sdk = "=0.1.6"
nucleo-matcher = "=0.3.1"
whatlang = "=0.18.0"
image = { version = "=0.25.10", default-features = false, features = ["png", "jpeg", "webp"] }
accesskit = "=0.25.2"
accesskit_unix = "*"
ash = "=0.38.0"
sdl3 = "=0.22.0"
tracing = "=0.1.44"
