[package]
name = "block_source"
version = "0.1.0"
edition = "2021"
publish = false

[dependencies]
ropey = { version = "*", default-features = false }
tree-sitter = "*"
tree-sitter-language = "*"
tree-sitter-python = "*"
tree-sitter-java = "*"
tree-sitter-cpp = "*"
tree-sitter-c-sharp = "*"
tree-sitter-rust = "*"
tree-sitter-verilog = "*"
tree-sitter-systemverilog = "*"
regex = "*"
