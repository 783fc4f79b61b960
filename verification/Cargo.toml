[package]
name = "tishlang_floem"
version = "0.1.0"
edition = "2021"
publish = false

[dependencies]
tishlang_core = "4.2.5"
tishlang_ui = "4.2.5"
