[package]
name = "git_ast"
version = "0.1.0"
edition = "2021"
publish = false

[dependencies]
libc = "=0.2.191"
git2 = { version = "=0.19.0", default-features = false }
fuser = { version = "=0.15.1", default-features = false }
tree-sitter = "=0.22.6"
tree-sitter-rust = "=0.21.2"

[dev-dependencies]
tempfile = "3"
