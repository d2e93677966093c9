[package]
name = "kak_edits"
version = "0.1.0"
edition = "2021"
publish = false

[dependencies]
itertools = "*"
libc = "*"
lsp-types = "0.95"
whoami = "1"
