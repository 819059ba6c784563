[package]
name = "device_core"
version = "0.1.0"
edition = "2021"
publish = false

[dependencies]
wgpu-types = "0.16"
wgpu-hal = { version = "0.16", default-features = false }
naga = "0.12"
parking_lot = "0.12"
thiserror = "1"
log = "0.4"
arrayvec = "0.7"
smallvec = "1"
profiling = "1"
