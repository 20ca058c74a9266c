[package]
name = "llvm-stackmap-parser"
version = "0.1.0"
edition = "2021"
publish = false

[dependencies]
goblin = "0.9"
