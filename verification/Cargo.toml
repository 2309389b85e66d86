[package]
name = "vmm"
version = "0.1.0"
edition = "2021"
publish = false

[dependencies]
aws-lc-rs = { version = "*", default-features = false, features = ["aws-lc-sys"] }
bitvec = { version = "1", features = ["serde"] }
clap = { version = "4", features = ["derive"] }
event-manager = "*"
kvm-bindings = { version = "*", features = ["fam-wrappers", "serde"] }
kvm-ioctls = "*"
libc = "0.2"
linux-loader = { version = "*", default-features = false }
memfd = "*"
micro-http = "*"
serde = { version = "1", features = ["derive", "rc"] }
serde_json = "1"
slab = "0.4"
userfaultfd = "*"
vm-allocator = { version = "*", features = ["serde"] }
vm-memory = { version = "*", features = ["backend-mmap", "backend-bitmap"] }
vmm-sys-util = "*"
