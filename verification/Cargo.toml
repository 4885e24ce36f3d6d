[package]
name = "zk_circuits"
version = "0.1.0"
edition = "2021"
publish = false

[dependencies]
halo2_proofs = "=0.4.0"
halo2_gadgets = "=0.6.0"
group = "=0.14.0"
rand = "0.10"
