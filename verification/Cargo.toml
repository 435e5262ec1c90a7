[package]
name = "crow_panel_advance_5"
version = "0.1.0"
edition = "2021"
publish = false

[dependencies]
embedded-graphics = "0.8"
esp-idf-svc = "0.51"
log = "0.4"
