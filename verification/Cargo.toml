[package]
name = "typst2pdf"
version = "0.1.0"
edition = "2021"
publish = false

[dependencies]
typst = "0.11"
typst-pdf = "0.11"
comemo = "0.4"
time = "0.3"
ttf-parser = "0.20"
