[package]
name = "pdl_dissector"
version = "0.1.0"
edition = "2021"
publish = false

[dependencies]
indent_write = "=2.2.0"
pdl-compiler = "=0.2.3"
codespan-reporting = "0.11"
clap = { version = "=4.6.7", features = ["derive"] }
serde = { version = "=1.0.229", features = ["derive"] }
