[package]
name = "layout_solver"
version = "0.1.0"
edition = "2021"
publish = false

[dependencies]
kas-text = "=0.1.5"
