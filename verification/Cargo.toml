[package]
name = "kivori"
version = "0.1.0"
edition = "2021"
publish = false

[dependencies]
heapless = "=0.8.0"
mipidsi = "=0.10.0"
embedded-hal = "=1.0.0"
embedded-hal-bus = "=0.3.0"
embedded-graphics-core = "=0.4.1"
postcard = { version = "=1.1.3", default-features = false, features = ["alloc"] }
resvg = { version = "=0.45.1", default-features = false }
serde = { version = "=1.0.229", default-features = false, features = ["derive", "alloc"] }
