[package]
name = "rodin"
version = "0.1.0"
edition = "2021"
publish = false

[dependencies]
aho-corasick = "*"
anyhow = "*"
clap = "*"
indicatif = "*"
log = "*"
memmap2 = "*"
simplelog = "*"
