[package]
name = "pdfcr"
version = "1.0.0"
edition = "2021"
publish = false

[dependencies]
textwrap = "0.16"
printpdf = { version = "0.3", default-features = false }
walkdir = "2"
