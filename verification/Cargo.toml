[package]
name = "rdma_handshake"
version = "0.1.0"
edition = "2021"
publish = false
