[package]
name = "aether_kernel"
version = "0.1.0"
edition = "2021"
publish = false

[dependencies]
crossbeam-queue = { version = "=0.3.14", default-features = false, features = ["alloc"] }
limine = "=0.1.12"
pic8259 = { version = "=0.11.0", default-features = false, features = ["stable"] }
spin = "=0.9.9"
x86_64 = { version = "=0.15.5", default-features = false, features = ["instructions"] }
