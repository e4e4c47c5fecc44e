[package]
name = "litebox"
version = "0.1.0"
edition = "2021"
publish = false

[dependencies]
hashbrown = "0.15"
ringbuf = "0.4"
smoltcp = { version = "0.12", default-features = false, features = ["alloc", "medium-ip", "proto-ipv4", "socket-tcp", "socket-udp", "socket-icmp", "socket-raw"] }
tar-no-std = "0.3"
x86_64 = { version = "0.15", default-features = false }
loom = "0.7"
syscalls = "0.6"
