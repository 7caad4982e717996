[package]
name = "tiling_wm"
version = "0.1.0"
edition = "2021"
publish = false

[dependencies]
anyhow = "=1.0.104"
tracing = "=0.1.44"
tracing-appender = "=0.2.5"
tracing-subscriber = "=0.3.23"
xcb = { version = "=1.7.1", features = ["xkb", "as-raw-xcb-connection"] }
xkbcommon = { version = "=0.9.0", features = ["x11"] }
