[package]
name = "dodge_shoot"
version = "0.1.0"
edition = "2021"
publish = false

[dependencies]
defmt = "=1.2.0"
embassy-time = "=0.5.1"
embassy-usb-logger = "=0.6.0"
embedded-graphics = "=0.8.1"
embedded-hal = "=1.0.0"
embedded-hal-bus = "=0.3.0"
heapless = "=0.9.3"
log = "=0.4.34"
mipidsi = "=0.9.0"
static_cell = "=2.1.1"
