[package]
name = "sel4_root_logic"
version = "0.1.0"
edition = "2021"
publish = false

[dependencies]
object = { version = "=0.36.7", default-features = false, features = ["read_core", "elf", "unaligned"] }
