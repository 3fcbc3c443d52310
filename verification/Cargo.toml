[package]
name = "vmm_io"
version = "0.1.0"
edition = "2021"
publish = false

[dependencies]
byteorder = "1"
libc = "0.2"
log = "0.4"
anyhow = "1"
vmm-sys-util = "0.11"
