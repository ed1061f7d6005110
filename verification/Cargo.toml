[package]
name = "zeropool"
version = "0.7.0"
edition = "2021"
publish = false

[dependencies]
crossbeam-queue = "0.3"
region = "3.0"
tokio-uring = "0.5"
