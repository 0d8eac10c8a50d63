[package]
name = "hadron_kernel"
version = "0.1.0"
edition = "2021"
publish = false

[dependencies]
noto-sans-mono-bitmap = "=0.4.0"
chrono = { version = "=0.4.45", default-features = false }
acpi = "=6.1.1"
bitflags = "=2.13.2"
spin = "=0.12.3"
log = "=0.4.35"
gimli = { version = "=0.34.0", default-features = false, features = ["read"] }
uart_16550 = "=0.9.0"
volatile = "=0.6.1"
linked_list_allocator = "=0.10.6"
lazy_static = "=1.5.1"
limine = "=0.5.0"
x86_64 = { version = "=0.15.5", default-features = false, features = ["instructions"] }
