[package]
name = "levoc-lexer"
version = "0.1.0"
edition = "2021"

[dependencies]
unicode-ident = "1"
