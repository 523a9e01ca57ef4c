[package]
name = "kernel_core"
version = "0.1.0"
edition = "2021"
publish = false

[dependencies]
bit_field = "*"
bitflags = "*"
buddy_system_allocator = "*"
lazy_static = "*"
r0 = "*"
riscv = "*"
spin = "*"
woke = "*"
