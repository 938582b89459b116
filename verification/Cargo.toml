[package]
name = "js_typegen"
version = "0.1.0"
edition = "2021"
publish = false

[dependencies]
diplomat_core = { version = "=0.17.0", features = ["hir"] }
askama = "=0.16.1"
