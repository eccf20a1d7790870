[package]
name = "round_display"
version = "0.1.0"
edition = "2021"
publish = false

[dependencies]
esp-idf-svc = "*"
lightvgl-sys = "*"
lvgl-sys = "*"
log = "*"
