[package]
name = "mips_vm"
version = "0.1.0"
edition = "2021"
publish = false

[dependencies]
colored = "*"
crossterm = "0.25"
tui = "0.19"
