[package]
name = "cdis_assemble"
version = "0.1.0"
edition = "2021"
publish = false

[dependencies]
bitvec = "1"
dis-rs = "*"
num-traits = "0.2"
nom = "*"
