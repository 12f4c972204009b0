[package]
name = "captive_portal"
version = "0.1.0"
edition = "2021"
publish = false

[dependencies]
cyw43 = "=0.1.0"
cyw43-pio = "=0.1.0"
defmt = "=0.3.101"
defmt-rtt = "=0.4.2"
embassy-executor = { version = "=0.5.1", features = ["executor-thread", "integrated-timers"] }
embassy-net = { version = "=0.4.0", features = ["tcp", "udp", "medium-ethernet", "proto-ipv4"] }
embassy-rp = { version = "=0.1.0", features = ["time-driver", "critical-section-impl"] }
embassy-sync = "=0.5.0"
embassy-time = "=0.3.2"
embassy-usb-logger = "=0.1.0"
heapless = "=0.8.0"
log = "=0.4.34"
panic-probe = { version = "=0.3.2", features = ["print-defmt"] }
picoserve = "=0.7.2"
rand = { version = "=0.8.8", default-features = false }
smoltcp = { version = "=0.11.0", default-features = false, features = ["medium-ethernet", "proto-ipv4", "socket-tcp", "socket-udp"] }
static_cell = "=2.1.1"
