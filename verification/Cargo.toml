[package]
name = "kernel"
version = "0.1.0"
edition = "2021"
publish = false

[dependencies]
xmas-elf = "=0.10.0"
spin = "=0.12.3"
riscv = "=0.16.1"
log = "=0.4.35"
thiserror = "=2.0.21"
paste = "=1.0.15"
buddy_system_allocator = "=0.13.0"
linked_list_allocator = "=0.10.6"
bitflags = "=2.13.2"
bytemuck = "1"
