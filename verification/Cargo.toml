[package]
name = "os_practice"
version = "0.1.0"
edition = "2021"
publish = false

[dependencies]
crossbeam-queue = "=0.3.14"
pc-keyboard = "=0.9.0"
x86_64 = { version = "=0.15.5", default-features = false, features = ["instructions"] }
pic8259 = { version = "=0.11.0", default-features = false }
spin = "=0.12.3"
lazy_static = "=1.5.1"
volatile = "=0.4.6"
uart_16550 = "=0.8.1"
conquer-once = "=0.4.0"
