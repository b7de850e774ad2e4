[package]
name = "framelink"
version = "0.1.0"
edition = "2021"
publish = false

[dependencies]
heapless = "0.8"
critical-section = { version = "1", features = ["std"] }
defmt = "0.3"
defmt-decoder = { version = "0.3", features = ["unstable"] }
anyhow = "1"
log = "0.4"
clap = { version = "4", features = ["derive"] }
serialport = { version = "4", default-features = false }
termios = "0.3"
usb-device = "0.2"
usbd-serial = "0.1"
