[package]
name = "zink"
version = "0.1.0"
edition = "2021"
publish = false

[dependencies]
cranelift-codegen = "0.89"
cranelift-frontend = "0.89"
cranelift-module = "0.89"
cranelift-object = "0.89"
cranelift-jit = "0.89"
cranelift-preopt = "0.89"
target-lexicon = "0.12"
tempfile = "3"
path-absolutize = "3"
clap = { version = "4", features = ["derive"] }
