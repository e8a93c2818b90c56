[package]
name = "postgresql_parser_core"
version = "0.1.0"
edition = "2021"
publish = false

[dependencies]
neon = "*"
tokio = { version = "*", features = ["io-std", "macros", "rt-multi-thread"] }
tower-lsp = "*"
