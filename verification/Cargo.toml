[package]
name = "kernel_console"
version = "0.1.0"
edition = "2021"
publish = false

[dependencies]
volatile = "=0.2.7"
uart_16550 = "=0.2.19"
spin = "=0.9.9"
lazy_static = "=1.5.1"
x86_64 = { version = "=0.14.13", default-features = false, features = ["instructions"] }
bootloader = "=0.9.35"
