[package]
name = "kewve_os"
version = "0.1.0"
edition = "2021"
publish = false

[dependencies]
linked_list_allocator = "*"
spin = "*"
lazy_static = "*"
uart_16550 = "*"
bootloader = "0.9"
x86_64 = "*"
