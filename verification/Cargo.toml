[package]
name = "mini-roxygen-core"
version = "0.1.0"
edition = "2021"
publish = false

[dependencies]
arity-parser = "=0.5.0"
pulldown-cmark = "=0.13.6"
rd-ast = "=0.4.0"
rd-writer = "=0.4.0"
