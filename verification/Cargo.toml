[package]
name = "blade_lsp"
version = "0.1.0"
edition = "2021"
publish = false

[dependencies]
dashmap = "*"
log = "*"
serde = { version = "*", features = ["derive"] }
serde_json = "*"
structured-logger = "*"
tokio = { version = "*", features = ["full"] }
tower-lsp = "*"
tree-sitter = "*"
