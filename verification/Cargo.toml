[package]
name = "aurora_kernel"
version = "0.1.0"
edition = "2021"
publish = false

[dependencies]
spin = "=0.9.9"
lazy_static = { version = "=1.5.1", features = ["spin_no_std"] }
log = "=0.4.35"
bootloader = { version = "=0.9.35", features = ["map_physical_memory"] }
linked_list_allocator = "=0.10.6"
bitflags = "=1.3.2"
x86_64 = { version = "0.15", default-features = false, features = ["instructions"] }
