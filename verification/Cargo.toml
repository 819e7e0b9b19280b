[package]
name = "xilinx_dma"
version = "0.1.0"
edition = "2021"
publish = false

[dependencies]
async-io = "2"
libc = "0.2"
thiserror = "1"
