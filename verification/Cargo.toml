[package]
name = "vm_circuit"
version = "0.1.0"
edition = "2021"
publish = false

[dependencies]
halo2_proofs = "=0.4.1"
move-core-types = "=0.0.3"
