[package]
name = "moncomble_os"
version = "0.1.0"
edition = "2021"
publish = false

[dependencies]
crossbeam-queue = { version = "=0.3.14", default-features = false, features = ["alloc"] }
pc-keyboard = "=0.7.0"
x86_64 = { version = "=0.15.5", default-features = false, features = ["instructions"] }
pic8259 = "=0.11.0"
uart_16550 = "=0.3.2"
spin = "=0.9.9"
lazy_static = { version = "=1.5.1", features = ["spin_no_std"] }
