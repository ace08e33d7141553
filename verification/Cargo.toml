[package]
name = "codegraph"
version = "0.1.0"
edition = "2021"
publish = false

[dependencies]
tree-sitter = "=0.27.1"
tree-sitter-c = "=0.24.2"
tree-sitter-cpp = "=0.23.4"
tree-sitter-c-sharp = "=0.23.5"
tree-sitter-dart = "=0.2.0"
tree-sitter-go = "=0.25.0"
tree-sitter-hcl = "=1.1.0"
tree-sitter-java = "=0.23.5"
tree-sitter-kotlin-ng = "=1.1.0"
tree-sitter-lua = "=0.5.0"
