[package]
name = "vimscript_core"
version = "0.1.0"
edition = "2021"
publish = false

[dependencies]
chrono = "0.4"
lsp-types = "0.74"
rowan = "0.10"
serde = { version = "1", features = ["derive"] }
serde_json = "1"
