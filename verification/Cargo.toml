[package]
name = "enigma_kernel"
version = "0.1.0"
edition = "2021"
publish = false

[dependencies]
x86_64 = { version = "=0.15.5", default-features = false, features = ["instructions"] }
linked_list_allocator = { version = "=0.9.1", default-features = false }
bootloader_api = "=0.11.17"
spin = "=0.9.9"
lazy_static = { version = "=1.5.1", features = ["spin_no_std"] }
volatile = "=0.2.7"
noto-sans-mono-bitmap = { version = "=0.3.2", features = ["unicode-specials"] }
