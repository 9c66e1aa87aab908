[package]
name = "snapshot"
version = "0.1.0"
edition = "2021"
publish = false

[dependencies]
bincode = "1.3"
serde = { version = "1", features = ["derive"] }
serde_json = "1"
vmm-sys-util = "*"
kvm-bindings = { version = "*", features = ["fam-wrappers"] }
vm-memory = { version = "*", features = ["backend-mmap"] }
virtio-queue = "*"
openssl = "*"
libc = "*"
