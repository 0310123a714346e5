[package]
name = "sheet_engine"
version = "0.1.0"
edition = "2021"
publish = false

[dependencies]
logisheets_base = "*"
logisheets_parser = "*"
