[package]
name = "firefly-runtime"
version = "0.1.0"
edition = "2021"
publish = false

[dependencies]
crc32fast = "=1.5.4"
embedded-graphics = "=0.8.2"
embedded-io = { version = "=0.6.1", features = ["alloc"] }
firefly-audio = "=0.2.2"
firefly-meta = "=0.1.2"
firefly-types = "=0.11.3"
fugit = "=0.3.9"
heapless = "=0.8.0"
libflate = "=1.4.0"
micromath = "=2.1.0"
postcard = { version = "=1.1.3", features = ["alloc"] }
serde = { version = "=1.0.229", features = ["derive"] }
tinyqr = "=0.14.1"
wasmi = "=1.1.0"
