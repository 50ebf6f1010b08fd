[package]
name = "shyper_vm"
version = "0.1.0"
edition = "2021"
publish = false

[dependencies]
spin = "0.9"
volatile = "0.4"
