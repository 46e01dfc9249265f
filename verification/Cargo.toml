[package]
name = "decorator_rewriter"
version = "0.1.0"
edition = "2021"
publish = false

[dependencies]
glob-match = "0.2"
serde = { version = "1.0", features = ["derive"] }
serde_json = "1.0"
swc_core = { version = "*", features = ["common", "ecma_ast", "ecma_visit"] }
