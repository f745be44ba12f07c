[package]
name = "barsign_disp"
version = "0.1.0"
edition = "2021"
publish = false

[dependencies]
heapless = "0.7"
smoltcp = { version = "0.8", default-features = false, features = ["medium-ethernet", "proto-ipv4", "proto-dhcpv4", "socket-tcp", "socket-udp", "socket-dhcpv4"] }
embedded-hal = { version = "0.2", features = ["unproven"] }
spi-memory = "0.2"
menu = "0.3"
litex-hal = "0.3"
riscv-rt = "0.11"
