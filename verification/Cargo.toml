[package]
name = "volanwm"
version = "0.1.0"
edition = "2021"
publish = false

[dependencies]
log = "=0.4.34"
fern = "=0.6.2"
log-panics = "=2.1.0"
time = "=0.1.45"
serde = { version = "=1.0.229", features = ["derive"] }
serde_yaml = "=0.9.34"
xdg = "=2.5.2"
xcb = "=0.9.0"
xcb-util = { version = "=0.3.0", features = ["ewmh", "icccm", "keysyms"] }
