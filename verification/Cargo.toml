[package]
name = "branchy_text_editor"
version = "0.1.0"
edition = "2021"
publish = false

[dependencies]
tree-sitter = "=0.22.6"
tree-sitter-javascript = "=0.21.4"
tree-sitter-typescript = "=0.21.2"
tree-sitter-rust = "=0.21.2"
tree-sitter-html = "=0.20.4"
rand = "0.8"
serde = { version = "1", features = ["derive"] }
serde_json = "1"
home = "0.5"
path-absolutize = "3"
