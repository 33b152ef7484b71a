[package]
name = "micro_asm"
version = "0.1.0"
edition = "2021"
publish = false

[dependencies]
ariadne = "=0.1.5"
clap = "=2.34.0"
logos = "=0.12.1"
