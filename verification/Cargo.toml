[package]
name = "cpuid"
version = "0.1.0"
edition = "2021"
publish = false

[dependencies]
kvm-bindings = { version = "=0.14.2", features = ["fam-wrappers"] }
