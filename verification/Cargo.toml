[package]
name = "tnc"
version = "0.1.0"
edition = "2021"
publish = false

[dependencies]
cranelift-codegen = "=0.123.20"
cranelift-frontend = "=0.123.20"
cranelift-jit = "=0.123.20"
cranelift-module = "=0.123.20"
cranelift-native = "=0.123.20"
