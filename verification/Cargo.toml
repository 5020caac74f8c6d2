[package]
name = "ast_scan"
version = "0.1.0"
edition = "2021"
publish = false

[dependencies]
ast-grep-core = "*"
ast-grep-language = "*"
serde_json = "*"
