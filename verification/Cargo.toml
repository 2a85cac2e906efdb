[package]
name = "self-rust-tokenize"
version = "0.4.0"
edition = "2021"
publish = false

[dependencies]
proc-macro2 = "1"
quote = "1"
smallvec = "1"
syn-helpers = "0.5"
unicode-ident = "1"
