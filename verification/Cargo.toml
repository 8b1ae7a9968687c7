[package]
name = "vmm"
version = "0.1.0"
edition = "2021"
publish = false

[dependencies]
kvm-bindings = { version = "=0.14.2", features = ["fam-wrappers"] }
kvm-ioctls = "=0.25.1"
libc = "=0.2.191"
log = "=0.4.35"
serde = { version = "=1.0.229", features = ["derive"] }
serde_json = "=1.0.154"
vm-memory = { version = "=0.18.0", features = ["backend-mmap", "backend-bitmap"] }
vmm-sys-util = "=0.15.0"
