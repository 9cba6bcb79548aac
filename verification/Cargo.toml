[package]
name = "c2dafny"
version = "0.1.0"
edition = "2021"
publish = false

[dependencies]
regex = "1"
clap = "4"
tree-sitter = "0.24"
tree-sitter-c = "0.23"
