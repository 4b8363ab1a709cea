[package]
name = "pariter"
version = "0.5.1"
edition = "2021"

[dependencies]
crossbeam-channel = "0.5"
num_cpus = "1"

[dev-dependencies]
quickcheck = "1"
